//! The upload endpoint: who may use it, and what it answers.
//!
//! An export can be sent over HTTP. The request carries a shared secret in
//! its query string; only with the right secret is the export imported.

use vstd::prelude::*;
use crate::pipeline::{ImportError, ImportResult};
use crate::text::same_text;

verus! {

/// The path of the upload endpoint.
pub open spec fn upload_path() -> Seq<char> {
    "/import"@
}

/// The name of the query parameter that carries the secret.
pub open spec fn secret_parameter() -> Seq<char> {
    "api_key"@
}

/// Where a request is headed.
#[derive(Clone, Copy, Debug, PartialEq, Eq)]
pub enum Route {
    /// The upload endpoint.
    Upload,
    /// Everything else belongs to the chat bot.
    Chat,
}

/// Routes a request by its path: `/import` is the upload endpoint.
pub fn route(path: &str) -> (result: Route)
    ensures
        result == if path@ == upload_path() {
            Route::Upload
        } else {
            Route::Chat
        },
{
    if same_text(path, "/import") {
        Route::Upload
    } else {
        Route::Chat
    }
}

/// Why an upload was turned away.
#[derive(Clone, Copy, Debug, PartialEq, Eq)]
pub enum Denial {
    /// No secret is configured, so nobody may upload.
    NotConfigured,
    /// The request carries no secret or another one.
    InvalidKey,
}

/// The value of the first pair with the given key, if there is one.
pub open spec fn first_value(pairs: Seq<(String, String)>, key: Seq<char>) -> Option<Seq<char>>
    decreases pairs.len(),
{
    if pairs.len() == 0 {
        None
    } else if pairs[0].0@ == key {
        Some(pairs[0].1@)
    } else {
        first_value(pairs.skip(1), key)
    }
}

/// Looks a key up among the pairs of a query string.
pub fn query_value(pairs: &Vec<(String, String)>, key: &str) -> (result: Option<String>)
    ensures
        match result {
            Some(value) => first_value(pairs@, key@) == Some(value@),
            None => first_value(pairs@, key@) is None,
        },
{
    let mut i: usize = 0;
    assert(pairs@.skip(0) =~= pairs@);
    while i < pairs.len()
        invariant
            i <= pairs.len(),
            first_value(pairs@, key@) == first_value(pairs@.skip(i as int), key@),
        decreases pairs.len() - i,
    {
        proof {
            assert(pairs@.skip(i as int).skip(1) =~= pairs@.skip(i + 1));
        }
        if same_text(pairs[i].0.as_str(), key) {
            return Some(pairs[i].1.clone());
        }
        i += 1;
    }
    None
}

/// The secret that a request presents: the value of the first `api_key`
/// among the pairs of its query string.
pub fn presented_secret(pairs: &Vec<(String, String)>) -> (result: Option<String>)
    ensures
        match result {
            Some(value) => first_value(pairs@, secret_parameter()) == Some(value@),
            None => first_value(pairs@, secret_parameter()) is None,
        },
{
    query_value(pairs, "api_key")
}

/// Whether an upload is let in, given the secret it presents and the one
/// that is configured.
pub open spec fn admission(presented: Option<Seq<char>>, configured: Option<Seq<char>>) -> Result<
    (),
    Denial,
> {
    match configured {
        None => Err(Denial::NotConfigured),
        Some(secret) => if presented == Some(secret) {
            Ok(())
        } else {
            Err(Denial::InvalidKey)
        },
    }
}

/// The characters of an optional text.
pub open spec fn text_of(text: Option<&str>) -> Option<Seq<char>> {
    match text {
        Some(t) => Some(t@),
        None => None,
    }
}

/// Decides whether an upload is let in: only if a secret is configured and
/// the request presents exactly that secret.
pub fn authorize(presented: Option<&str>, configured: Option<&str>) -> (result: Result<(), Denial>)
    ensures
        result == admission(text_of(presented), text_of(configured)),
{
    match configured {
        None => Err(Denial::NotConfigured),
        Some(secret) => match presented {
            Some(given) => if same_text(given, secret) {
                Ok(())
            } else {
                Err(Denial::InvalidKey)
            },
            None => Err(Denial::InvalidKey),
        },
    }
}

/// What the upload endpoint answers.
#[derive(Clone, Debug, PartialEq, Eq)]
pub enum UploadReply {
    /// The import went through; the message is sent as the `message` member
    /// of a JSON object.
    Report { message: String },
    /// The request failed; the text is the body of an error response with
    /// the given status.
    Failure { status: u16, text: String },
}

/// The mathematical content of an [`UploadReply`].
pub enum UploadAnswer {
    Report { message: Seq<char> },
    Failure { status: u16, text: Seq<char> },
}

impl View for UploadReply {
    type V = UploadAnswer;

    open spec fn view(&self) -> UploadAnswer {
        match self {
            UploadReply::Report { message } => UploadAnswer::Report { message: message@ },
            UploadReply::Failure { status, text } => UploadAnswer::Failure {
                status: *status,
                text: text@,
            },
        }
    }
}

impl Denial {
    /// The denial in words.
    pub open spec fn message_text(self) -> Seq<char> {
        match self {
            Denial::NotConfigured => "Webhook API key is not set"@,
            Denial::InvalidKey => "Invalid API key"@,
        }
    }

    /// The answer to a request that was turned away: status 401 with the
    /// denial in words.
    pub fn reply(self) -> (reply: UploadReply)
        ensures
            reply@ == (UploadAnswer::Failure { status: 401, text: self.message_text() }),
    {
        match self {
            Denial::NotConfigured => UploadReply::Failure {
                status: 401,
                text: String::from_str("Webhook API key is not set"),
            },
            Denial::InvalidKey => UploadReply::Failure {
                status: 401,
                text: String::from_str("Invalid API key"),
            },
        }
    }
}

/// The answer to an upload that was let in: the counts in words, or status
/// 500 with the error in words.
pub open spec fn upload_answer(outcome: Result<ImportResult, ImportError>) -> UploadAnswer {
    match outcome {
        Ok(result) => UploadAnswer::Report { message: result.summary() },
        Err(error) => UploadAnswer::Failure { status: 500, text: error.message_text() },
    }
}

/// Answers an upload that was let in.
pub fn upload_reply(outcome: &Result<ImportResult, ImportError>) -> (reply: UploadReply)
    ensures
        reply@ == upload_answer(*outcome),
{
    match outcome {
        Ok(result) => UploadReply::Report { message: result.to_text() },
        Err(error) => UploadReply::Failure { status: 500, text: error.message() },
    }
}

} // verus!
