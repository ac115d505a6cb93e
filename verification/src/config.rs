//! What an import needs to know about its surroundings.

use vstd::prelude::*;
use crate::ledger::{uuid_of, AccountId};

verus! {

/// The settings of one deployment: the keys of the two services, the budget
/// and account that imports go to, and the secret that guards the upload
/// endpoint.
#[derive(Clone, Debug, PartialEq, Eq)]
pub struct Config {
    /// Key of the chat bot, if imports by chat are wanted.
    pub tg_api_key: Option<String>,
    /// Key of the ledger's API.
    pub ynab_api_key: String,
    /// Budget that receives the transactions; `last-used` stands for the
    /// budget that was used last.
    pub ynab_budget_id: String,
    /// Account that receives the transactions.
    pub ynab_account_id: AccountId,
    /// Secret that an upload has to present, if uploads are wanted.
    pub webhook_api_key: Option<String>,
}

impl Config {
    /// The `Authorization` header of a request to the ledger.
    pub open spec fn authorization_text(self) -> Seq<char> {
        "Bearer "@ + self.ynab_api_key@
    }

    /// The `Authorization` header of a request to the ledger: the API key as
    /// a bearer token.
    pub fn authorization(&self) -> (header: String)
        ensures
            header@ == self.authorization_text(),
    {
        let mut header = String::from_str("Bearer ");
        header.append(self.ynab_api_key.as_str());
        header
    }
}

/// Why a configuration could not be built.
#[derive(Clone, Debug, PartialEq, Eq)]
pub enum ConfigError {
    /// The account identifier is no UUID; the message says why.
    InvalidAccountId { message: String },
}

impl ConfigError {
    /// The error in words.
    pub fn message(&self) -> (text: String)
        ensures
            self matches ConfigError::InvalidAccountId { message } && text@ == message@,
    {
        match self {
            ConfigError::InvalidAccountId { message } => message.clone(),
        }
    }
}

/// Builds the configuration from the values of its five settings. All are
/// taken as they are but the account identifier, which must be a UUID.
pub fn init_config(
    tg_api_key: Option<String>,
    ynab_api_key: String,
    ynab_budget_id: String,
    ynab_account_id: &str,
    webhook_api_key: Option<String>,
) -> (result: Result<Config, ConfigError>)
    ensures
        match uuid_of(ynab_account_id@) {
            Some(value) => result == Ok::<Config, ConfigError>(
                Config {
                    tg_api_key,
                    ynab_api_key,
                    ynab_budget_id,
                    ynab_account_id: AccountId { value },
                    webhook_api_key,
                },
            ),
            None => result matches Err(ConfigError::InvalidAccountId { .. }),
        },
{
    match AccountId::parse(ynab_account_id) {
        Ok(account) => Ok(
            Config {
                tg_api_key,
                ynab_api_key,
                ynab_budget_id,
                ynab_account_id: account,
                webhook_api_key,
            },
        ),
        Err(message) => Err(ConfigError::InvalidAccountId { message }),
    }
}

} // verus!
