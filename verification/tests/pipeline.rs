use yonder_import::config::{init_config, Config};
use yonder_import::ledger::{AccountId, ClearedStatus};
use yonder_import::pipeline::{
    conclude_import, prepare_import, summarize, ImportError, ImportResult, LedgerReply,
};
use yonder_import::source::{Column, DecodeError};

const EXPORT: &str = "Date/Time of transaction,Description,Amount (GBP),Amount (in Charged Currency),Currency,Category,Debit or Credit,Country\n2026-01-01T10:34:50.211697,TFL - Transport for London,3.00,3.00,GBP,Transport,Debit,GBR\n2026-01-01T10:34:50.211697,TFL - Transport for London,3.00,3.00,GBP,Transport,Debit,GBR\n";

fn config() -> Config {
    init_config(
        Some("chat-key".to_string()),
        "ledger-key".to_string(),
        "last-used".to_string(),
        "0a1b2c3d-4e5f-6071-8293-a4b5c6d7e8f9",
        Some("upload-secret".to_string()),
    )
    .unwrap()
}

fn ids(texts: &[&str]) -> Vec<String> {
    texts.iter().map(|text| text.to_string()).collect()
}

#[test]
fn prepare_maps_all_rows_into_one_request() {
    let request = prepare_import(EXPORT.as_bytes(), &config()).unwrap();
    assert_eq!(request.budget_id, "last-used");
    assert_eq!(request.transactions.len(), 2);
    for transaction in &request.transactions {
        assert_eq!(transaction.account_id, AccountId { value: 0x0a1b2c3d4e5f60718293a4b5c6d7e8f9 });
        assert_eq!(transaction.amount, -3000);
        assert_eq!(transaction.import_id, "TG:3:1767263690211");
        assert_eq!(transaction.payee_name, "TFL - Transport for London");
        assert_eq!(transaction.cleared, ClearedStatus::Cleared);
    }
}

#[test]
fn prepare_fails_as_a_whole() {
    let broken = EXPORT.replace("3.00,GBP,Transport,Debit,GBR\n2026", "3.00,GBP,Transport,Debit,GBR\n2026x");
    assert_eq!(
        prepare_import(broken.as_bytes(), &config()),
        Err(ImportError::Decode { error: DecodeError::BadTimestamp { row: 2 } })
    );
    assert_eq!(
        prepare_import(b"", &config()),
        Err(ImportError::Decode { error: DecodeError::MissingHeader })
    );
    assert_eq!(
        prepare_import(b"Description\nx\n", &config()),
        Err(ImportError::Decode { error: DecodeError::MissingColumn { column: Column::DateTime } })
    );
}

#[test]
fn two_rows_one_created_one_duplicate() {
    let request = prepare_import(EXPORT.as_bytes(), &config()).unwrap();
    assert_eq!(request.transactions.len(), 2);
    let reply = LedgerReply {
        transaction_ids: ids(&["5f2a1b0c"]),
        duplicate_import_ids: ids(&["TG:3:1767263690211"]),
    };
    let result = conclude_import(Ok(reply)).unwrap();
    assert_eq!(result, ImportResult { imported: 1, duplicates: 1 });
    assert_eq!(result.to_text(), "Imported transactions: 1\nSkipped duplicates: 1");
}

#[test]
fn summarize_counts_identifiers() {
    let reply = LedgerReply {
        transaction_ids: ids(&["a", "b", "c"]),
        duplicate_import_ids: ids(&[]),
    };
    assert_eq!(summarize(&reply), ImportResult { imported: 3, duplicates: 0 });
    let reply = LedgerReply { transaction_ids: ids(&[]), duplicate_import_ids: ids(&["x", "y"]) };
    assert_eq!(summarize(&reply), ImportResult { imported: 0, duplicates: 2 });
}

#[test]
fn a_failed_request_gives_the_message_and_no_counts() {
    let message = "Error Response: status: 401 Unauthorized; headers: {}; value: unauthorized";
    let outcome = conclude_import(Err(message.to_string()));
    assert_eq!(outcome, Err(ImportError::Ledger { message: message.to_string() }));
    assert_eq!(outcome.unwrap_err().message(), message);
    assert!(conclude_import(Err(String::new())).is_err());
}

#[test]
fn result_text() {
    assert_eq!(
        ImportResult { imported: 0, duplicates: 0 }.to_text(),
        "Imported transactions: 0\nSkipped duplicates: 0"
    );
    assert_eq!(
        ImportResult { imported: 12, duplicates: 345 }.to_text(),
        "Imported transactions: 12\nSkipped duplicates: 345"
    );
    assert_eq!(
        ImportResult { imported: usize::MAX, duplicates: 10 }.to_text(),
        format!("Imported transactions: {}\nSkipped duplicates: 10", usize::MAX)
    );
}

#[test]
fn import_error_messages() {
    assert_eq!(
        ImportError::Decode { error: DecodeError::BadDirection { row: 4 } }.message(),
        "failed to deserialize as Yonder transactions CSV: row 4: unrecognized direction"
    );
    assert_eq!(ImportError::Ledger { message: "no such budget".to_string() }.message(), "no such budget");
}
