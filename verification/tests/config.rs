use yonder_import::config::{init_config, Config, ConfigError};
use yonder_import::ledger::AccountId;

#[test]
fn init_config_keeps_the_settings() {
    let config = init_config(
        Some("chat-key".to_string()),
        "ledger-key".to_string(),
        "last-used".to_string(),
        "0a1b2c3d-4e5f-6071-8293-a4b5c6d7e8f9",
        None,
    );
    assert_eq!(
        config,
        Ok(Config {
            tg_api_key: Some("chat-key".to_string()),
            ynab_api_key: "ledger-key".to_string(),
            ynab_budget_id: "last-used".to_string(),
            ynab_account_id: AccountId { value: 0x0a1b2c3d4e5f60718293a4b5c6d7e8f9 },
            webhook_api_key: None,
        })
    );
}

#[test]
fn init_config_rejects_an_account_that_is_no_uuid() {
    let config = init_config(
        Some("chat-key".to_string()),
        "ledger-key".to_string(),
        "last-used".to_string(),
        "my account",
        Some("upload-secret".to_string()),
    );
    match config {
        Err(ConfigError::InvalidAccountId { message }) => {
            assert_eq!(message, uuid::Uuid::parse_str("my account").unwrap_err().to_string());
            assert_eq!(ConfigError::InvalidAccountId { message: message.clone() }.message(), message);
        }
        other => panic!("unexpected outcome: {other:?}"),
    }
}

#[test]
fn authorization_is_a_bearer_token() {
    let config = init_config(
        None,
        "ledger-key".to_string(),
        String::new(),
        "0a1b2c3d4e5f60718293a4b5c6d7e8f9",
        None,
    )
    .unwrap();
    assert_eq!(config.authorization(), "Bearer ledger-key");
}
