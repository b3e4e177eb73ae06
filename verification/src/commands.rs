//! What the commands of the program do to the stored meetings and what they say.

use crate::config::{assert_languages_compatible, language_conflict, Config, ProviderKind};
use crate::control::protocol::{is_error, ok_model, response_model, Response};
use crate::error::{fails, AppError, ErrorKind, Result};
use crate::storage::jobs::{
    count_jobs, hurried, is_pending, reset, reset_processing_without_event, retry_pending,
};
use crate::storage::types::{JobState, TranscriptionJobRecord};
use crate::storage::{Store, Tables};
use crate::text;
use crate::tree::{
    field_of, fields_model, json_parsed, json_text, object_value, parse_json, put, text_value,
    write_json, Tree, TreeModel,
};
use vstd::prelude::*;

verus! {

/// The jobs once those left in work wait again.
pub open spec fn reset_jobs(tables: Tables) -> Seq<TranscriptionJobRecord> {
    tables.jobs.map_values(|j: TranscriptionJobRecord| reset(j, tables))
}

/// The jobs once those that wait are due.
pub open spec fn hurried_jobs(
    jobs: Seq<TranscriptionJobRecord>,
    chosen: Option<(ProviderKind, String)>,
    now: String,
) -> Seq<TranscriptionJobRecord> {
    jobs.map_values(|j: TranscriptionJobRecord| hurried(j, chosen, now))
}

/// Why jobs are not tried again with a provider.
pub open spec fn retry_conflict(provider: Option<ProviderKind>, config: Config) -> Option<
    Seq<char>,
> {
    match provider {
        Some(kind) => language_conflict(kind, text::views(config.transcription.languages@)),
        None => None,
    }
}

/// Makes every job that waits, or was left in work, due at once, with another provider
/// where one is given. Returns how many there are.
pub fn cmd_retry(
    store: &mut Store,
    provider: Option<ProviderKind>,
    config: &Config,
    now: &String,
) -> (r: Result<usize>)
    ensures
        match retry_conflict(provider, *config) {
            Some(message) => fails(r, ErrorKind::Config, message) && final(store)@ == old(store)@,
            None => {
                &&& r matches Ok(n) && n == count_jobs(
                    reset_jobs(old(store)@),
                    |j: TranscriptionJobRecord| is_pending(j),
                )
                &&& exists|chosen: Option<(ProviderKind, String)>|
                    #[trigger] is_choice(chosen, provider, *config) && final(store)@ == (Tables {
                        jobs: hurried_jobs(reset_jobs(old(store)@), chosen, *now),
                        ..old(store)@
                    })
            },
        },
        old(store)@.wf() ==> final(store)@.wf(),
{
    if let Some(kind) = provider {
        match assert_languages_compatible(
            kind,
            config.transcription.model.as_str(),
            &config.transcription.languages,
        ) {
            Ok(_) => {},
            Err(e) => return Err(e),
        }
    }
    let _ = reset_processing_without_event(store);
    let chosen = match provider {
        Some(kind) => Some((kind, config.model_for_provider(kind))),
        None => None,
    };
    let ghost given = chosen;
    assert(store.jobs@ =~= reset_jobs(old(store)@));
    let n = retry_pending(store, chosen, now);
    assert(is_choice(given, provider, *config));
    assert(store@.jobs =~= hurried_jobs(reset_jobs(old(store)@), given, *now));
    Ok(n)
}

/// Whether this is the provider that was given, with its model in the settings.
pub open spec fn is_choice(
    chosen: Option<(ProviderKind, String)>,
    provider: Option<ProviderKind>,
    config: Config,
) -> bool {
    match provider {
        None => chosen is None,
        Some(kind) => chosen matches Some(c) && c.0 == kind && c.1@ == config.model_text(kind),
    }
}

/// What the user is told of jobs that are tried again.
pub fn retry_message(updated: u64) -> (r: String)
    ensures
        r@ == if updated == 0 {
            "No eligible jobs."@
        } else {
            "Queued "@ + text::decimal(updated as nat) + " transcription job(s) for retry."@
        },
{
    if updated == 0 {
        "No eligible jobs.".to_owned()
    } else {
        let n = text::decimal_of(updated);
        text::concat3("Queued ", n.as_str(), " transcription job(s) for retry.")
    }
}

/// What the user is told of a meeting that is transcribed again.
pub fn retranscribe_message(count: u64, provider: ProviderKind, run_id: &str) -> (r: String)
    ensures
        r@ == "Queued "@ + text::decimal(count as nat) + " chunks for retranscription with "@
            + provider.name() + " (run "@ + run_id@ + ")"@,
{
    let n = text::decimal_of(count);
    let mut r = text::concat5(
        "Queued ",
        n.as_str(),
        " chunks for retranscription with ",
        provider.as_str(),
        " (run ",
    );
    r.append(run_id);
    r.append(")");
    r
}

/// What the user is told of a meeting whose transcript was written anew.
pub fn rebuild_message(session_id: &str) -> (r: String)
    ensures
        r@ == "Rebuilt transcript.md and transcript.jsonl for session "@ + session_id@,
{
    text::concat2("Rebuilt transcript.md and transcript.jsonl for session ", session_id)
}

/// What the user wants of a recording.
#[derive(Clone, Copy, Debug, PartialEq, Eq, Structural)]
pub enum RecordCommand {
    Start,
    Stop,
    Status,
}

impl RecordCommand {
    pub open spec fn op(self) -> Seq<char> {
        match self {
            RecordCommand::Start => "start_recording"@,
            RecordCommand::Stop => "stop_recording"@,
            RecordCommand::Status => "get_state"@,
        }
    }

    /// What the service is asked.
    pub fn request(self) -> (r: String)
        ensures
            r@ == json_text(request_model(self.op())),
    {
        request_line(
            match self {
                RecordCommand::Start => "start_recording",
                RecordCommand::Stop => "stop_recording",
                RecordCommand::Status => "get_state",
            },
        )
    }
}

/// A request that names only what is asked for.
pub open spec fn request_model(op: Seq<char>) -> TreeModel {
    TreeModel::Object(seq![("op"@, TreeModel::Text(op))])
}

pub fn request_line(op: &str) -> (r: String)
    ensures
        r@ == json_text(request_model(op@)),
{
    let mut f: Vec<(String, Tree)> = Vec::new();
    put(&mut f, "op", text_value(op));
    assert(fields_model(f@) =~= seq![("op"@, TreeModel::Text(op@))]);
    write_json(&object_value(f))
}

/// A provider that can be chosen.
#[derive(Clone, Copy, Debug, PartialEq, Eq, Structural)]
pub enum ProviderArg {
    Voxtype,
    WhisperCpp,
}

impl ProviderArg {
    pub fn kind(self) -> (r: ProviderKind)
        ensures
            r == match self {
                ProviderArg::Voxtype => ProviderKind::Voxtype,
                ProviderArg::WhisperCpp => ProviderKind::WhisperCpp,
            },
    {
        match self {
            ProviderArg::Voxtype => ProviderKind::Voxtype,
            ProviderArg::WhisperCpp => ProviderKind::WhisperCpp,
        }
    }
}

/// Whether the service can be asked: its socket is there.
pub fn check_socket(socket_exists: bool) -> (r: Result<()>)
    ensures
        if socket_exists {
            r is Ok
        } else {
            fails(
                r,
                ErrorKind::Control,
                "voxtype-meeting-service daemon is not running (no control socket); start it with `voxtype-meeting-service start` or `voxtype-meeting-service run`"@,
            )
        },
{
    if socket_exists {
        Ok(())
    } else {
        Err(
            AppError::control(
                "voxtype-meeting-service daemon is not running (no control socket); start it with `voxtype-meeting-service start` or `voxtype-meeting-service run`",
            ),
        )
    }
}

/// Why an answer of the service is an error, where it is one.
pub open spec fn refusal(answer: TreeModel) -> Option<Seq<char>> {
    if answer.field("ok"@) == Some(TreeModel::Bool(false)) {
        match answer.text_field("error"@) {
            Some(message) => Some(message),
            None => Some("request failed"@),
        }
    } else {
        None
    }
}

/// Whether an answer of the service is none that refuses the request.
pub fn check_answer(answer: &Tree) -> (r: Result<()>)
    ensures
        match refusal(answer@) {
            Some(message) => fails(r, ErrorKind::Control, message),
            None => r is Ok,
        },
{
    let refused = match answer.get("ok") {
        Some(Tree::Bool(ok)) => !*ok,
        _ => false,
    };
    if !refused {
        return Ok(());
    }
    let message = match answer.get_text("error") {
        Some(message) => message,
        None => "request failed",
    };
    Err(AppError::control(message))
}

/// Whether a line that the service answered with is shown: it is an answer and does not
/// refuse the request.
pub fn print_json_line(line: &str) -> (r: Result<()>)
    ensures
        match json_parsed(line@) {
            Err(reason) => fails(r, ErrorKind::Json, reason),
            Ok(answer) => match refusal(answer) {
                Some(message) => fails(r, ErrorKind::Control, message),
                None => r is Ok,
            },
        },
{
    match parse_json(line) {
        Ok(answer) => check_answer(&answer),
        Err(reason) => Err(AppError::Json(reason)),
    }
}

/// An answer that refuses a request is taken as a refusal, with its message.
pub proof fn law_refusals_are_recognised(
    response: Response,
    message: Seq<char>,
    code: Option<Seq<char>>,
    fields: Option<Seq<(String, String)>>,
)
    requires
        is_error(response, message, code, fields),
    ensures
        refusal(response_model(response)) == Some(message),
{
    reveal_strlit("ok");
    reveal_strlit("error");
    let all = response_model(response)->Object_0;
    assert(all[0].0 == "ok"@ && all[1].0 == "error"@);
    assert("ok"@.len() != "error"@.len());
    assert(all.drop_first()[0] == all[1]);
    assert(field_of(all.drop_first(), "error"@) == Some(all[1].1));
}

/// An answer that says that all is well is taken as no refusal.
pub proof fn law_agreements_are_no_refusals(extra: Seq<(Seq<char>, TreeModel)>)
    ensures
        refusal(ok_model(extra)) is None,
{
    assert(ok_model(extra)->Object_0[0] == ("ok"@, TreeModel::Bool(true)));
}

/// A retry changes the jobs that wait and no others, one for one.
pub proof fn law_a_retry_spares_other_jobs(
    jobs: Seq<TranscriptionJobRecord>,
    chosen: Option<(ProviderKind, String)>,
    now: String,
    i: int,
)
    requires
        0 <= i < jobs.len(),
    ensures
        hurried_jobs(jobs, chosen, now).len() == jobs.len(),
        hurried_jobs(jobs, chosen, now)[i].id == jobs[i].id,
        hurried_jobs(jobs, chosen, now)[i].state == jobs[i].state,
        jobs[i].state != JobState::Pending ==> hurried_jobs(jobs, chosen, now)[i] == jobs[i],
        jobs[i].state == JobState::Pending ==> hurried_jobs(jobs, chosen, now)[i].next_retry_at
            == Some(now),
        jobs[i].state == JobState::Pending ==> match chosen {
            Some((kind, model)) => hurried_jobs(jobs, chosen, now)[i].provider == kind
                && hurried_jobs(jobs, chosen, now)[i].model == Some(model),
            None => hurried_jobs(jobs, chosen, now)[i].provider == jobs[i].provider
                && hurried_jobs(jobs, chosen, now)[i].model == jobs[i].model,
        },
{
}

/// Jobs that were left in work without a transcript wait again; all others stay.
pub proof fn law_a_reset_spares_other_jobs(tables: Tables, i: int)
    requires
        0 <= i < tables.jobs.len(),
    ensures
        reset_jobs(tables).len() == tables.jobs.len(),
        tables.jobs[i].state == JobState::Processing && !tables.job_has_event(tables.jobs[i].id@)
            ==> reset_jobs(tables)[i] == (TranscriptionJobRecord {
            state: JobState::Pending,
            started_at: None,
            ..tables.jobs[i]
        }),
        tables.jobs[i].state != JobState::Processing || tables.job_has_event(tables.jobs[i].id@)
            ==> reset_jobs(tables)[i] == tables.jobs[i],
{
}

/// What each command asks the service for.
pub proof fn law_commands_go_by_their_names(op: Seq<char>)
    ensures
        RecordCommand::Start.op() == "start_recording"@,
        RecordCommand::Stop.op() == "stop_recording"@,
        RecordCommand::Status.op() == "get_state"@,
        request_model(op) == TreeModel::Object(seq![("op"@, TreeModel::Text(op))]),
{
}

/// An answer is an error exactly where it says that it is not well; then its message is
/// told.
pub proof fn law_answers_are_errors_where_they_say_so(answer: TreeModel)
    ensures
        refusal(answer) is Some <==> answer.field("ok"@) == Some(TreeModel::Bool(false)),
        refusal(answer) matches Some(message) ==> (answer.text_field("error"@) matches Some(why)
            ==> message == why),
{
}

/// A retry with another provider is refused where that provider cannot take the languages.
pub proof fn law_a_retry_needs_a_provider_that_takes_the_languages(
    provider: Option<ProviderKind>,
    config: Config,
)
    ensures
        retry_conflict(provider, config) is Some <==> provider == Some(ProviderKind::WhisperCpp)
            && config.transcription.languages@.len() > 1,
{
    crate::config::law_whisper_takes_one_language(text::views(config.transcription.languages@));
}

/// The provider that is chosen is the one that was given, with the model that the settings
/// hold for it.
pub proof fn law_the_given_provider_is_chosen(
    chosen: Option<(ProviderKind, String)>,
    kind: ProviderKind,
    config: Config,
)
    ensures
        is_choice(chosen, None, config) <==> chosen is None,
        is_choice(chosen, Some(kind), config) ==> (chosen matches Some((k, model)) && k == kind
            && model@ == config.model_text(kind)),
{
}

} // verus!
