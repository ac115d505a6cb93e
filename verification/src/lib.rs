//! Imports of Yonder card statements into a budgeting ledger.
//!
//! A statement export is decoded row by row ([`source`]), every row becomes
//! a ledger transaction with a signed amount in thousandths and an import
//! identifier that is the same whenever the row is sent again ([`ledger`]),
//! and the ledger's answer is summed up in two counts ([`pipeline`]). The
//! identifier is the only thing by which the ledger recognises a row it has
//! seen, so amounts are kept as exact decimals ([`amount`]) and timestamps
//! as plain numbers ([`timestamp`]).
//!
//! The library does no input or output. [`upload`] and [`chat`] hold what
//! the two ways into an import decide and say; [`config`] holds the
//! settings.

pub mod amount;
pub mod chat;
pub mod config;
pub mod ledger;
pub mod pipeline;
pub mod source;
pub mod text;
pub mod timestamp;
pub mod upload;
