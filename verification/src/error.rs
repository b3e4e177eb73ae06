//! The error type shared by every operation of the library.

use crate::text;
use vstd::prelude::*;

verus! {

pub type Result<T> = std::result::Result<T, AppError>;

/// What an operation failed on, with a message for the user.
#[derive(Debug)]
pub enum AppError {
    Config(String),
    Path(String),
    Distro(String),
    Database(String),
    Io(String),
    Audio(String),
    Encode(String),
    Transcription(String),
    Control(String),
    Json(String),
    Other(String),
}

/// The variants of `AppError` without their messages.
pub enum ErrorKind {
    Config,
    Path,
    Distro,
    Database,
    Io,
    Audio,
    Encode,
    Transcription,
    Control,
    Json,
    Other,
}

impl View for AppError {
    type V = (ErrorKind, Seq<char>);

    open spec fn view(&self) -> (ErrorKind, Seq<char>) {
        match *self {
            AppError::Config(m) => (ErrorKind::Config, m@),
            AppError::Path(m) => (ErrorKind::Path, m@),
            AppError::Distro(m) => (ErrorKind::Distro, m@),
            AppError::Database(m) => (ErrorKind::Database, m@),
            AppError::Io(m) => (ErrorKind::Io, m@),
            AppError::Audio(m) => (ErrorKind::Audio, m@),
            AppError::Encode(m) => (ErrorKind::Encode, m@),
            AppError::Transcription(m) => (ErrorKind::Transcription, m@),
            AppError::Control(m) => (ErrorKind::Control, m@),
            AppError::Json(m) => (ErrorKind::Json, m@),
            AppError::Other(m) => (ErrorKind::Other, m@),
        }
    }
}

/// The text that an error is shown as.
pub open spec fn shown(e: (ErrorKind, Seq<char>)) -> Seq<char> {
    match e.0 {
        ErrorKind::Database => "database error: "@ + e.1,
        _ => e.1,
    }
}

/// Whether `r` failed with this kind of error and this message.
pub open spec fn fails<T>(r: Result<T>, kind: ErrorKind, message: Seq<char>) -> bool {
    r matches Err(e) && e@ == (kind, message)
}

impl AppError {
    pub fn config(message: &str) -> (e: Self)
        ensures
            e@ == (ErrorKind::Config, message@),
    {
        AppError::Config(message.to_owned())
    }

    pub fn path(message: &str) -> (e: Self)
        ensures
            e@ == (ErrorKind::Path, message@),
    {
        AppError::Path(message.to_owned())
    }

    pub fn distro(message: &str) -> (e: Self)
        ensures
            e@ == (ErrorKind::Distro, message@),
    {
        AppError::Distro(message.to_owned())
    }

    pub fn audio(message: &str) -> (e: Self)
        ensures
            e@ == (ErrorKind::Audio, message@),
    {
        AppError::Audio(message.to_owned())
    }

    pub fn encode(message: &str) -> (e: Self)
        ensures
            e@ == (ErrorKind::Encode, message@),
    {
        AppError::Encode(message.to_owned())
    }

    pub fn transcription(message: &str) -> (e: Self)
        ensures
            e@ == (ErrorKind::Transcription, message@),
    {
        AppError::Transcription(message.to_owned())
    }

    pub fn control(message: &str) -> (e: Self)
        ensures
            e@ == (ErrorKind::Control, message@),
    {
        AppError::Control(message.to_owned())
    }

    pub fn other(message: &str) -> (e: Self)
        ensures
            e@ == (ErrorKind::Other, message@),
    {
        AppError::Other(message.to_owned())
    }

    /// The text that the error is shown as.
    pub fn to_string(&self) -> (r: String)
        ensures
            r@ == shown(self@),
    {
        match self {
            AppError::Database(m) => text::concat2("database error: ", m.as_str()),
            AppError::Config(m) => m.clone(),
            AppError::Path(m) => m.clone(),
            AppError::Distro(m) => m.clone(),
            AppError::Io(m) => m.clone(),
            AppError::Audio(m) => m.clone(),
            AppError::Encode(m) => m.clone(),
            AppError::Transcription(m) => m.clone(),
            AppError::Control(m) => m.clone(),
            AppError::Json(m) => m.clone(),
            AppError::Other(m) => m.clone(),
        }
    }
}

/// An error is told by its message, and one of the database says that it is.
pub proof fn law_how_errors_are_told(kind: ErrorKind, message: Seq<char>)
    ensures
        shown((ErrorKind::Database, message)) == "database error: "@ + message,
        kind != ErrorKind::Database ==> shown((kind, message)) == message,
{
}

} // verus!
