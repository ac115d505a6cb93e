//! One import from end to end.
//!
//! An import has two halves with the ledger's answer between them. The
//! first half turns the bytes of an export into the one request that is sent
//! to the ledger; the second turns the ledger's answer into the counts that
//! the sender is told. Sending is left to the caller. All rows go in one
//! request, so an import either gives its counts or fails as a whole.

use vstd::prelude::*;
use crate::config::Config;
use crate::ledger::{ledger_records_of, map_batch, mapped_batch, LedgerRecord, LedgerTransaction};
use crate::source::{csv_rows, decode, decode_table, DecodeError};
use crate::text::{nat_text, push_u64};

verus! {

/// The request that creates all transactions of an export at once.
#[derive(Clone, Debug, PartialEq, Eq)]
pub struct SubmitRequest {
    pub budget_id: String,
    pub transactions: Vec<LedgerTransaction>,
}

/// What the ledger answers to a [`SubmitRequest`]: the transactions it
/// created, and the import identifiers it had seen before.
#[derive(Clone, Debug, PartialEq, Eq)]
pub struct LedgerReply {
    pub transaction_ids: Vec<String>,
    pub duplicate_import_ids: Vec<String>,
}

/// The outcome of an import, in numbers.
#[derive(Clone, Copy, Debug, PartialEq, Eq)]
pub struct ImportResult {
    /// Transactions that the ledger created.
    pub imported: usize,
    /// Transactions that the ledger had already.
    pub duplicates: usize,
}

/// Why an import failed.
#[derive(Clone, Debug, PartialEq, Eq)]
pub enum ImportError {
    /// The export could not be decoded.
    Decode { error: DecodeError },
    /// The ledger refused the request or could not be reached; the message
    /// is the ledger client's.
    Ledger { message: String },
}

impl ImportResult {
    /// The outcome in two lines of text.
    pub open spec fn summary(self) -> Seq<char> {
        "Imported transactions: "@ + nat_text(self.imported as nat) + "\nSkipped duplicates: "@
            + nat_text(self.duplicates as nat)
    }

    /// The outcome in two lines of text.
    pub fn to_text(&self) -> (text: String)
        ensures
            text@ == self.summary(),
    {
        let mut text = String::from_str("Imported transactions: ");
        push_u64(&mut text, self.imported as u64);
        text.append("\nSkipped duplicates: ");
        push_u64(&mut text, self.duplicates as u64);
        text
    }
}

impl ImportError {
    /// The error in words: a decoding error's own text, the ledger's message
    /// as it came.
    pub open spec fn message_text(self) -> Seq<char> {
        match self {
            ImportError::Decode { error } => error.message_text(),
            ImportError::Ledger { message } => message@,
        }
    }

    /// The error in words: a decoding error's own text, the ledger's message
    /// as it came.
    pub fn message(&self) -> (text: String)
        ensures
            text@ == self.message_text(),
    {
        match self {
            ImportError::Decode { error } => error.message(),
            ImportError::Ledger { message } => message.clone(),
        }
    }
}

/// The counts that a reply of the ledger stands for.
pub open spec fn counts_of(reply: LedgerReply) -> ImportResult {
    ImportResult {
        imported: reply.transaction_ids@.len() as usize,
        duplicates: reply.duplicate_import_ids@.len() as usize,
    }
}

/// Counts what the ledger created and what it had already. The identifiers
/// themselves are dropped.
pub fn summarize(reply: &LedgerReply) -> (result: ImportResult)
    ensures
        result == counts_of(*reply),
{
    ImportResult {
        imported: reply.transaction_ids.len(),
        duplicates: reply.duplicate_import_ids.len(),
    }
}

/// First half of an import: decodes the export and maps every row for the
/// configured account. The request goes to the configured budget and holds
/// the rows in the order of the export. If any row cannot be decoded there
/// is no request.
pub fn prepare_import(export: &[u8], config: &Config) -> (result: Result<
    SubmitRequest,
    ImportError,
>)
    ensures
        match csv_rows(export@) {
            Some(table) => match decode_table(table) {
                Ok(records) => result matches Ok(request) && request.budget_id@
                    == config.ynab_budget_id@ && ledger_records_of(request.transactions@)
                    == mapped_batch(records, config.ynab_account_id),
                Err(error) => result == Err::<SubmitRequest, ImportError>(
                    ImportError::Decode { error },
                ),
            },
            None => result matches Err(
                ImportError::Decode { error: DecodeError::Malformed { .. } },
            ),
        },
{
    match decode(export) {
        Ok(rows) => Ok(
            SubmitRequest {
                budget_id: config.ynab_budget_id.clone(),
                transactions: map_batch(&rows, config.ynab_account_id),
            },
        ),
        Err(error) => Err(ImportError::Decode { error }),
    }
}

/// What an import comes to, given how the request to the ledger ended.
pub open spec fn conclusion(outcome: Result<LedgerReply, String>) -> Result<
    ImportResult,
    ImportError,
> {
    match outcome {
        Ok(reply) => Ok(counts_of(reply)),
        Err(message) => Err(ImportError::Ledger { message }),
    }
}

/// Second half of an import. `outcome` is the ledger's reply, or the
/// client's message if the request failed. A reply gives the counts; a
/// failure gives the message unchanged and no counts.
pub fn conclude_import(outcome: Result<LedgerReply, String>) -> (result: Result<
    ImportResult,
    ImportError,
>)
    ensures
        result == conclusion(outcome),
{
    match outcome {
        Ok(reply) => Ok(summarize(&reply)),
        Err(message) => Err(ImportError::Ledger { message }),
    }
}

/// An import gives counts only if the request to the ledger succeeded, and
/// then they are the counts of that one reply: a failed request never leaves
/// counts behind.
pub proof fn theorem_import_is_atomic(outcome: Result<LedgerReply, String>)
    ensures
        conclusion(outcome) is Ok <==> outcome is Ok,
        outcome matches Err(message) ==> conclusion(outcome) == Err::<ImportResult, ImportError>(
            ImportError::Ledger { message },
        ) && conclusion(outcome)->Err_0.message_text() == message@,
        outcome matches Ok(reply) ==> conclusion(outcome) == Ok::<ImportResult, ImportError>(
            counts_of(reply),
        ),
{
}

} // verus!
