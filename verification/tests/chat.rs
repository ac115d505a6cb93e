use yonder_import::chat::{file_url, instruction, reply, require_api_key, ChatError};
use yonder_import::pipeline::{ImportError, ImportResult};
use yonder_import::source::DecodeError;

#[test]
fn instruction_asks_for_a_document() {
    assert_eq!(instruction(), "Send Yonder CSV export as a document");
}

#[test]
fn api_key_is_required() {
    assert_eq!(require_api_key(Some("123:abc")), Ok("123:abc"));
    assert_eq!(require_api_key(Some("")), Ok(""));
    assert_eq!(require_api_key(None), Err(ChatError::MissingApiKey));
}

#[test]
fn file_url_joins_key_and_path() {
    assert_eq!(
        file_url("123:abc", Some("documents/file_7.csv")),
        Ok("https://api.telegram.org/file/bot123:abc/documents/file_7.csv".to_string())
    );
    assert_eq!(file_url("k", Some("")), Ok("https://api.telegram.org/file/botk/".to_string()));
    assert_eq!(file_url("123:abc", None), Err(ChatError::MissingFilePath));
}

#[test]
fn reply_gives_the_counts() {
    assert_eq!(
        reply(&Ok(ImportResult { imported: 1, duplicates: 1 })),
        "Imported transactions: 1\nSkipped duplicates: 1"
    );
    assert_eq!(
        reply(&Ok(ImportResult { imported: 25, duplicates: 0 })),
        "Imported transactions: 25\nSkipped duplicates: 0"
    );
}

#[test]
fn reply_says_why_an_import_failed() {
    assert_eq!(
        reply(&Err(ChatError::MissingApiKey)),
        "Failed to import transactions:\n\nTelegram API key is not set"
    );
    assert_eq!(
        reply(&Err(ChatError::MissingFilePath)),
        "Failed to import transactions:\n\nno file path found"
    );
    assert_eq!(
        reply(&Err(ChatError::Fetch { message: "connection reset".to_string() })),
        "Failed to import transactions:\n\nconnection reset"
    );
    assert_eq!(
        reply(&Err(ChatError::Import {
            error: ImportError::Ledger { message: "no such budget".to_string() }
        })),
        "Failed to import transactions:\n\nno such budget"
    );
    assert_eq!(
        reply(&Err(ChatError::Import {
            error: ImportError::Decode { error: DecodeError::BadAmount { row: 2 } }
        })),
        "Failed to import transactions:\n\nfailed to deserialize as Yonder transactions CSV: row 2: unparseable amount"
    );
}

#[test]
fn chat_error_messages() {
    assert_eq!(ChatError::MissingApiKey.message(), "Telegram API key is not set");
    assert_eq!(ChatError::MissingFilePath.message(), "no file path found");
    assert_eq!(ChatError::Fetch { message: "timed out".to_string() }.message(), "timed out");
}
