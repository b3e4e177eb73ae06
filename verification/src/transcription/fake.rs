//! A provider that answers without listening.

use crate::config::ProviderKind;
use crate::error::{fails, AppError, ErrorKind, Result};
use crate::text;
use crate::transcription::TranscriptionResult;
use vstd::prelude::*;

verus! {

/// Fails a number of times and then always gives the same text.
#[derive(Debug)]
pub struct FakeTranscriptionProvider {
    pub kind: ProviderKind,
    pub text: String,
    pub fail_times: usize,
    pub attempts: usize,
}

impl FakeTranscriptionProvider {
    pub fn always(text: String) -> (r: Self)
        ensures
            r.kind == ProviderKind::Openai,
            r.text == text,
            r.fail_times == 0,
            r.attempts == 0,
    {
        FakeTranscriptionProvider { kind: ProviderKind::Openai, text, fail_times: 0, attempts: 0 }
    }

    pub fn fail_then_succeed(fail_times: usize, text: String) -> (r: Self)
        ensures
            r.kind == ProviderKind::Openai,
            r.text == text,
            r.fail_times == fail_times,
            r.attempts == 0,
    {
        FakeTranscriptionProvider { kind: ProviderKind::Openai, text, fail_times, attempts: 0 }
    }

    pub fn name(&self) -> (r: ProviderKind)
        ensures
            r == self.kind,
    {
        self.kind
    }

    /// The next answer.
    pub fn transcribe(&mut self) -> (r: Result<TranscriptionResult>)
        requires
            old(self).attempts < usize::MAX,
        ensures
            *final(self) == (FakeTranscriptionProvider {
                attempts: (old(self).attempts + 1) as usize,
                ..*old(self)
            }),
            if old(self).attempts < old(self).fail_times {
                fails(
                    r,
                    ErrorKind::Transcription,
                    "fake provider failure on attempt "@ + text::decimal(
                        (old(self).attempts + 1) as nat,
                    ),
                )
            } else {
                r matches Ok(t) && t.text == old(self).text && t.provider == old(self).kind
                    && t.model@ == "fake-model"@ && t.provider_metadata is None
            },
    {
        self.attempts = self.attempts + 1;
        if self.attempts <= self.fail_times {
            let number = text::decimal_of(self.attempts as u64);
            let message = text::concat2("fake provider failure on attempt ", number.as_str());
            return Err(AppError::transcription(message.as_str()));
        }
        Ok(
            TranscriptionResult {
                text: self.text.clone(),
                provider: self.kind,
                model: "fake-model".to_owned(),
                provider_metadata: None,
            },
        )
    }
}

} // verus!
