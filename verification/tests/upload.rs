use yonder_import::pipeline::{ImportError, ImportResult};
use yonder_import::source::DecodeError;
use yonder_import::upload::{
    authorize, presented_secret, query_value, route, upload_reply, Denial, Route, UploadReply,
};

fn pairs(list: &[(&str, &str)]) -> Vec<(String, String)> {
    list.iter().map(|(key, value)| (key.to_string(), value.to_string())).collect()
}

#[test]
fn route_by_path() {
    assert_eq!(route("/import"), Route::Upload);
    assert_eq!(route("/"), Route::Chat);
    assert_eq!(route(""), Route::Chat);
    assert_eq!(route("/import/"), Route::Chat);
    assert_eq!(route("/Import"), Route::Chat);
    assert_eq!(route("/imports"), Route::Chat);
    assert_eq!(route("/impor"), Route::Chat);
    assert_eq!(route("/bot"), Route::Chat);
}

#[test]
fn query_value_finds_the_first_pair() {
    let query = pairs(&[("a", "1"), ("api_key", "first"), ("b", "2"), ("api_key", "second")]);
    assert_eq!(query_value(&query, "api_key"), Some("first".to_string()));
    assert_eq!(query_value(&query, "a"), Some("1".to_string()));
    assert_eq!(query_value(&query, "b"), Some("2".to_string()));
    assert_eq!(query_value(&query, "c"), None);
    assert_eq!(query_value(&query, "API_KEY"), None);
    assert_eq!(query_value(&pairs(&[]), "api_key"), None);
    assert_eq!(query_value(&pairs(&[("api_key", "")]), "api_key"), Some(String::new()));
}

#[test]
fn authorize_wants_the_configured_secret() {
    assert_eq!(authorize(Some("secret"), Some("secret")), Ok(()));
    assert_eq!(authorize(Some("Secret"), Some("secret")), Err(Denial::InvalidKey));
    assert_eq!(authorize(Some("secret "), Some("secret")), Err(Denial::InvalidKey));
    assert_eq!(authorize(Some("secre"), Some("secret")), Err(Denial::InvalidKey));
    assert_eq!(authorize(Some(""), Some("secret")), Err(Denial::InvalidKey));
    assert_eq!(authorize(None, Some("secret")), Err(Denial::InvalidKey));
    assert_eq!(authorize(Some("secret"), None), Err(Denial::NotConfigured));
    assert_eq!(authorize(None, None), Err(Denial::NotConfigured));
    assert_eq!(authorize(Some(""), Some("")), Ok(()));
}

#[test]
fn denials_answer_with_status_401() {
    assert_eq!(
        Denial::NotConfigured.reply(),
        UploadReply::Failure { status: 401, text: "Webhook API key is not set".to_string() }
    );
    assert_eq!(
        Denial::InvalidKey.reply(),
        UploadReply::Failure { status: 401, text: "Invalid API key".to_string() }
    );
}

#[test]
fn upload_reply_reports_the_counts() {
    assert_eq!(
        upload_reply(&Ok(ImportResult { imported: 1, duplicates: 1 })),
        UploadReply::Report {
            message: "Imported transactions: 1\nSkipped duplicates: 1".to_string()
        }
    );
}

#[test]
fn upload_reply_answers_a_failure_with_status_500() {
    assert_eq!(
        upload_reply(&Err(ImportError::Ledger { message: "ledger is down".to_string() })),
        UploadReply::Failure { status: 500, text: "ledger is down".to_string() }
    );
    assert_eq!(
        upload_reply(&Err(ImportError::Decode { error: DecodeError::MissingHeader })),
        UploadReply::Failure {
            status: 500,
            text: "failed to deserialize as Yonder transactions CSV: missing header row".to_string()
        }
    );
}

#[test]
fn presented_secret_is_the_first_api_key() {
    let query = pairs(&[("a", "1"), ("api_key", "first"), ("api_key", "second")]);
    assert_eq!(presented_secret(&query), Some("first".to_string()));
    assert_eq!(presented_secret(&pairs(&[("key", "x"), ("Api_Key", "y")])), None);
    assert_eq!(presented_secret(&pairs(&[])), None);
}
