//! The service as a unit of systemd.

use crate::control::format_status_text;
use crate::control::protocol::{Response, StatusPayload};
use crate::control::status_text;
use crate::error::{fails, AppError, ErrorKind, Result};
use crate::text;
use vstd::prelude::*;

verus! {

pub const UNIT: &'static str = "voxtype-meeting-service.service";

/// The error of a `systemctl --user` that could not be run.
pub fn systemctl_error(args: &Vec<String>, reason: &str) -> (e: AppError)
    ensures
        e@ == (
            ErrorKind::Other,
            "could not run systemctl --user "@ + text::joined(text::views(args@), " "@) + ": "@
                + reason@,
        ),
{
    let args = text::join(args, " ");
    let message = text::concat4("could not run systemctl --user ", args.as_str(), ": ", reason);
    AppError::other(message.as_str())
}

/// Whether the unit is active, as `systemctl --user is-active` writes it, where it could
/// be run.
pub fn unit_is_active(output: Option<&Vec<u8>>) -> (r: Option<bool>)
    ensures
        match output {
            None => r is None,
            Some(stdout) => r == Some(text::trimmed(text::lossy(stdout@)) == "active"@),
        },
{
    match output {
        None => None,
        Some(stdout) => {
            let said = text::lossy_text(stdout);
            let said = text::trim(said.as_str());
            Some(text::same(said.as_str(), "active"))
        },
    }
}

/// Whether there is a unit, by whether `systemctl --user cat` could be run and succeeded.
pub fn unit_exists(success: Option<bool>) -> (r: bool)
    ensures
        r == (success == Some(true)),
{
    match success {
        Some(success) => success,
        None => false,
    }
}

/// What has become known while the service is started.
#[derive(Debug)]
pub enum StartEvent {
    /// Whether the unit is active.
    Active(Option<bool>),
    /// Whether there is a unit.
    Installed(bool),
    /// The unit was started, or not; what was written about it.
    Ran { success: bool, stderr: Vec<u8> },
}

/// What is done next to start the service.
#[derive(Clone, Copy, Debug, PartialEq, Eq, Structural)]
pub enum StartAction {
    AskInstalled,
    Run,
    SayRunning,
    SayStarted,
}

pub open spec fn not_installed() -> Seq<char> {
    "systemd user unit "@ + UNIT@
        + " is not installed. Copy systemd/voxtype-meeting-service.service to ~/.config/systemd/user/"@
        + UNIT@ + " and run: systemctl --user daemon-reload"@
}

pub open spec fn unit_failure(verb: Seq<char>, stderr: Seq<u8>) -> Seq<char> {
    "systemctl --user "@ + verb + " "@ + UNIT@ + " failed: "@ + text::trimmed(text::lossy(stderr))
}

fn unit_error(verb: &str, stderr: &Vec<u8>) -> (e: AppError)
    ensures
        e@ == (ErrorKind::Other, unit_failure(verb@, stderr@)),
{
    let said = text::lossy_text(stderr);
    let said = text::trim(said.as_str());
    let mut message = text::concat4("systemctl --user ", verb, " ", UNIT);
    message.append(" failed: ");
    message.append(said.as_str());
    AppError::other(message.as_str())
}

/// What is done next to start the service: nothing where it runs, an error where it is
/// not installed.
pub fn start_step(event: &StartEvent) -> (r: Result<StartAction>)
    ensures
        match *event {
            StartEvent::Active(active) => r matches Ok(a) && a == if active == Some(true) {
                StartAction::SayRunning
            } else {
                StartAction::AskInstalled
            },
            StartEvent::Installed(true) => r matches Ok(a) && a == StartAction::Run,
            StartEvent::Installed(false) => fails(r, ErrorKind::Other, not_installed()),
            StartEvent::Ran { success: true, stderr } => r matches Ok(a) && a
                == StartAction::SayStarted,
            StartEvent::Ran { success: false, stderr } => fails(
                r,
                ErrorKind::Other,
                unit_failure("start"@, stderr@),
            ),
        },
{
    match event {
        StartEvent::Active(Some(true)) => Ok(StartAction::SayRunning),
        StartEvent::Active(_) => Ok(StartAction::AskInstalled),
        StartEvent::Installed(installed) => {
            if *installed {
                Ok(StartAction::Run)
            } else {
                let message = text::concat5(
                    "systemd user unit ",
                    UNIT,
                    " is not installed. Copy systemd/voxtype-meeting-service.service to ~/.config/systemd/user/",
                    UNIT,
                    " and run: systemctl --user daemon-reload",
                );
                Err(AppError::other(message.as_str()))
            }
        },
        StartEvent::Ran { success, stderr } => {
            if *success {
                Ok(StartAction::SayStarted)
            } else {
                Err(unit_error("start", stderr))
            }
        },
    }
}

impl StartAction {
    /// What the user is told, where there is something to tell.
    pub fn message(self) -> (r: Option<String>)
        ensures
            match self {
                StartAction::SayRunning => r matches Some(s) && s@ == "Service already running."@,
                StartAction::SayStarted => r matches Some(s) && s@ == "Started "@ + UNIT@ + "."@,
                _ => r is None,
            },
    {
        match self {
            StartAction::SayRunning => Some("Service already running.".to_owned()),
            StartAction::SayStarted => Some(text::concat3("Started ", UNIT, ".")),
            _ => None,
        }
    }
}

/// What has become known while the service is stopped.
#[derive(Debug)]
pub enum StopEvent {
    /// The service was asked to stop through its socket: whether it answered, and whether
    /// the socket is there all the same.
    Asked { answered: bool, socket_exists: bool },
    /// Whether the unit is active.
    Active(Option<bool>),
    /// The unit was stopped, or not; what was written about it.
    Ran { success: bool, stderr: Vec<u8> },
}

/// What is done next to stop the service.
#[derive(Clone, Copy, Debug, PartialEq, Eq, Structural)]
pub enum StopAction {
    /// Wait until the socket is gone and say that the service stopped.
    WaitAndSay,
    /// Ask systemd, with a warning where the socket did not answer.
    AskActive { warn: bool },
    Run,
    SayNotRunning,
}

/// What is done next to stop the service: systemd is asked only where the socket does
/// not answer.
pub fn stop_step(event: &StopEvent) -> (r: Result<StopAction>)
    ensures
        match *event {
            StopEvent::Asked { answered: true, socket_exists } => r matches Ok(a) && a
                == StopAction::WaitAndSay,
            StopEvent::Asked { answered: false, socket_exists } => r matches Ok(a) && a
                == (StopAction::AskActive { warn: socket_exists }),
            StopEvent::Active(active) => r matches Ok(a) && a == if active == Some(true) {
                StopAction::Run
            } else {
                StopAction::SayNotRunning
            },
            StopEvent::Ran { success: true, stderr } => r matches Ok(a) && a
                == StopAction::WaitAndSay,
            StopEvent::Ran { success: false, stderr } => fails(
                r,
                ErrorKind::Other,
                unit_failure("stop"@, stderr@),
            ),
        },
{
    match event {
        StopEvent::Asked { answered, socket_exists } => {
            if *answered {
                Ok(StopAction::WaitAndSay)
            } else {
                Ok(StopAction::AskActive { warn: *socket_exists })
            }
        },
        StopEvent::Active(Some(true)) => Ok(StopAction::Run),
        StopEvent::Active(_) => Ok(StopAction::SayNotRunning),
        StopEvent::Ran { success, stderr } => {
            if *success {
                Ok(StopAction::WaitAndSay)
            } else {
                Err(unit_error("stop", stderr))
            }
        },
    }
}

/// The status that the service answered with, where it answered.
pub fn status_answer(answer: Option<Response>) -> (r: Result<Option<StatusPayload>>)
    ensures
        match answer {
            Some(Response::OkStatus { ok, status }) => r matches Ok(Some(s)) && s == *status,
            Some(Response::Failed { ok, error, code, details, fields }) => fails(
                r,
                ErrorKind::Control,
                error@,
            ),
            _ => r matches Ok(None),
        },
{
    match answer {
        Some(Response::OkStatus { ok: _, status }) => Ok(Some(*status)),
        Some(Response::Failed { ok: _, error, code: _, details: _, fields: _ }) => Err(
            AppError::control(error.as_str()),
        ),
        _ => Ok(None),
    }
}

/// The status as the user reads it: the service runs where it answered or systemd says so.
pub fn status_report(active: Option<bool>, payload: Option<&StatusPayload>) -> (r: String)
    ensures
        r@ == status_text(
            if payload is Some || active == Some(true) {
                "running"@
            } else {
                "stopped"@
            },
            match payload {
                Some(s) => Some(*s),
                None => None,
            },
        ),
{
    let active = match active {
        Some(active) => active,
        None => false,
    };
    let service = if payload.is_some() || active {
        "running"
    } else {
        "stopped"
    };
    format_status_text(service, payload)
}

} // verus!
