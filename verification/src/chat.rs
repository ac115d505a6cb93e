//! The chat bot: what it asks for, where it finds a file, and what it says
//! when an import is over.

use vstd::prelude::*;
use crate::pipeline::{ImportError, ImportResult};

verus! {

/// Why an import that came in by chat failed.
#[derive(Clone, Debug, PartialEq, Eq)]
pub enum ChatError {
    /// No key of the chat service is configured.
    MissingApiKey,
    /// The chat service did not say where the file is.
    MissingFilePath,
    /// The file could not be fetched; the message is the client's.
    Fetch { message: String },
    /// The file was fetched and the import failed.
    Import { error: ImportError },
}

impl ChatError {
    /// The error in words.
    pub open spec fn message_text(self) -> Seq<char> {
        match self {
            ChatError::MissingApiKey => "Telegram API key is not set"@,
            ChatError::MissingFilePath => "no file path found"@,
            ChatError::Fetch { message } => message@,
            ChatError::Import { error } => error.message_text(),
        }
    }

    /// The error in words.
    pub fn message(&self) -> (text: String)
        ensures
            text@ == self.message_text(),
    {
        match self {
            ChatError::MissingApiKey => String::from_str("Telegram API key is not set"),
            ChatError::MissingFilePath => String::from_str("no file path found"),
            ChatError::Fetch { message } => message.clone(),
            ChatError::Import { error } => error.message(),
        }
    }
}

/// What the bot says to a message that carries no file.
pub fn instruction() -> (text: &'static str)
    ensures
        text@ == "Send Yonder CSV export as a document"@,
{
    "Send Yonder CSV export as a document"
}

/// The configured key of the chat service, which an import by chat cannot
/// do without.
pub fn require_api_key<'a>(configured: Option<&'a str>) -> (result: Result<&'a str, ChatError>)
    ensures
        match configured {
            Some(key) => result == Ok::<&str, ChatError>(key),
            None => result == Err::<&str, ChatError>(ChatError::MissingApiKey),
        },
{
    match configured {
        Some(key) => Ok(key),
        None => Err(ChatError::MissingApiKey),
    }
}

/// The address of a file of the chat service.
pub open spec fn file_address(api_key: Seq<char>, file_path: Seq<char>) -> Seq<char> {
    "https://api.telegram.org/file/bot"@ + api_key + "/"@ + file_path
}

/// The address from which an attached file is fetched, given the path that
/// the chat service reported for it.
pub fn file_url(api_key: &str, file_path: Option<&str>) -> (result: Result<String, ChatError>)
    ensures
        match file_path {
            Some(path) => result matches Ok(url) && url@ == file_address(api_key@, path@),
            None => result == Err::<String, ChatError>(ChatError::MissingFilePath),
        },
{
    match file_path {
        Some(path) => {
            let mut url = String::from_str("https://api.telegram.org/file/bot");
            url.append(api_key);
            url.append("/");
            url.append(path);
            Ok(url)
        },
        None => Err(ChatError::MissingFilePath),
    }
}

/// What the bot says when an import is over.
pub open spec fn reply_text(outcome: Result<ImportResult, ChatError>) -> Seq<char> {
    match outcome {
        Ok(result) => result.summary(),
        Err(error) => "Failed to import transactions:\n\n"@ + error.message_text(),
    }
}

/// What the bot says when an import is over: the counts, or that it failed
/// and why.
pub fn reply(outcome: &Result<ImportResult, ChatError>) -> (text: String)
    ensures
        text@ == reply_text(*outcome),
{
    match outcome {
        Ok(result) => result.to_text(),
        Err(error) => {
            let mut text = String::from_str("Failed to import transactions:\n\n");
            text.append(error.message().as_str());
            text
        },
    }
}

} // verus!
