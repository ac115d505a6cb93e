//! Transactions as the budgeting ledger takes them, and the mapping from
//! statement rows.
//!
//! The ledger counts money in thousandths of the currency unit and tells a
//! row it has seen before by its import identifier alone. So the mapping has
//! to get three things right: the sign, the scale, and an identifier that is
//! the same whenever the same row is sent again.

use vstd::prelude::*;
use crate::amount::{clamp_i64, Amount, Decimal};
use crate::source::{records_of, Direction, SourceRecord, SourceTransaction};
use crate::amount::{lemma_text_alphabet, lemma_text_injective};
use crate::text::{
    int_text, lemma_int_text_injective, lemma_nat_text_len, pow10, push_char, push_i64,
};
use crate::timestamp::CalendarDate;

verus! {

/// An account of the ledger, by the 128 bits of its UUID.
#[derive(Clone, Copy, Debug, PartialEq, Eq)]
pub struct AccountId {
    pub value: u128,
}

/// The uuid crate's error. Nothing is read from it but its message.
#[verifier::external_type_specification]
#[verifier::external_body]
pub struct ExUuidError(uuid::Error);

/// The 128 bits of the UUID that the uuid crate reads from `text`, first
/// byte highest, or `None` where it reads none.
pub uninterp spec fn uuid_of(text: Seq<char>) -> Option<u128>;

/// `Uuid::parse_str`, then `Uuid::as_u128` on what it read. The result is
/// `Ok` exactly where `uuid_of` is `Some`, and holds that value.
#[verifier::external_body]
fn read_uuid(text: &str) -> (result: Result<u128, uuid::Error>)
    ensures
        match result {
            Ok(value) => uuid_of(text@) == Some(value),
            Err(_) => uuid_of(text@) is None,
        },
{
    Ok(uuid::Uuid::parse_str(text)?.as_u128())
}

/// The message of a `uuid::Error`, as its `Display` writes it.
#[verifier::external_body]
fn uuid_error_message(error: &uuid::Error) -> String {
    error.to_string()
}

impl AccountId {
    /// Reads an account identifier written as a UUID. On failure the error
    /// is the uuid crate's message.
    pub fn parse(text: &str) -> (result: Result<AccountId, String>)
        ensures
            match uuid_of(text@) {
                Some(value) => result == Ok::<AccountId, String>(AccountId { value }),
                None => result is Err,
            },
    {
        match read_uuid(text) {
            Ok(value) => Ok(AccountId { value }),
            Err(error) => Err(uuid_error_message(&error)),
        }
    }
}

/// Whether the bank has settled a transaction.
#[derive(Clone, Copy, Debug, PartialEq, Eq)]
pub enum ClearedStatus {
    Cleared,
    Uncleared,
    Reconciled,
}

/// The colours with which the ledger can flag a transaction.
#[derive(Clone, Copy, Debug, PartialEq, Eq)]
pub enum FlagColor {
    Red,
    Orange,
    Yellow,
    Green,
    Blue,
    Purple,
}

/// A transaction as it is handed to the ledger.
#[derive(Clone, Debug, PartialEq, Eq)]
pub struct LedgerTransaction {
    pub account_id: AccountId,
    /// Thousandths of the currency unit; money that left the account is
    /// negative.
    pub amount: i64,
    pub cleared: ClearedStatus,
    pub date: CalendarDate,
    pub import_id: String,
    pub payee_name: String,
    pub category_id: Option<u128>,
    pub memo: Option<String>,
    pub flag_color: Option<FlagColor>,
    pub approved: Option<bool>,
}

/// The mathematical content of a [`LedgerTransaction`].
pub struct LedgerRecord {
    pub account_id: AccountId,
    pub amount: int,
    pub cleared: ClearedStatus,
    pub date: CalendarDate,
    pub import_id: Seq<char>,
    pub payee_name: Seq<char>,
    pub category_id: Option<u128>,
    pub memo: Option<Seq<char>>,
    pub flag_color: Option<FlagColor>,
    pub approved: Option<bool>,
}

impl View for LedgerTransaction {
    type V = LedgerRecord;

    open spec fn view(&self) -> LedgerRecord {
        LedgerRecord {
            account_id: self.account_id,
            amount: self.amount as int,
            cleared: self.cleared,
            date: self.date,
            import_id: self.import_id@,
            payee_name: self.payee_name@,
            category_id: self.category_id,
            memo: match self.memo {
                Some(memo) => Some(memo@),
                None => None,
            },
            flag_color: self.flag_color,
            approved: self.approved,
        }
    }
}

/// The records that a vector of ledger transactions holds, in order.
pub open spec fn ledger_records_of(transactions: Seq<LedgerTransaction>) -> Seq<LedgerRecord> {
    transactions.map_values(|t: LedgerTransaction| t@)
}

/// The longest import identifier that the ledger takes.
pub const MAX_IMPORT_ID_LEN: usize = 36;

/// The amount of a row in thousandths, rounded toward zero: below zero for
/// money that left the account.
pub open spec fn signed_thousandths(direction: Direction, amount: Decimal) -> int {
    match direction {
        Direction::Debit => -amount.thousandths(),
        Direction::Credit => amount.thousandths(),
    }
}

/// The amount that the ledger is given for a row: its signed thousandths,
/// or the nearest 64-bit bound where they lie beyond it.
pub open spec fn ledger_amount(direction: Direction, amount: Decimal) -> int {
    clamp_i64(signed_thousandths(direction, amount))
}

/// The import identifier of a row: `TG:`, the amount as the statement means
/// it (not scaled, in its shortest form), a colon, and the timestamp in
/// milliseconds since the Unix epoch.
pub open spec fn import_id_text(amount: Decimal, epoch_millis: i64) -> Seq<char> {
    seq!['T', 'G', ':'] + amount.text() + seq![':'] + int_text(epoch_millis as int)
}

/// The ledger transaction of a statement row, for the given account.
pub open spec fn mapped(record: SourceRecord, account: AccountId) -> LedgerRecord {
    LedgerRecord {
        account_id: account,
        amount: ledger_amount(record.direction, record.amount),
        cleared: ClearedStatus::Cleared,
        date: record.timestamp.civil.date,
        import_id: import_id_text(record.amount, record.timestamp.epoch_millis),
        payee_name: record.description,
        category_id: None,
        memo: None,
        flag_color: None,
        approved: None,
    }
}

/// Writes the import identifier for an amount and a timestamp.
pub fn import_id(amount: &Amount, epoch_millis: i64) -> (id: String)
    ensures
        id@ == import_id_text(amount@, epoch_millis),
{
    let mut id = String::new();
    push_char(&mut id, 'T');
    push_char(&mut id, 'G');
    push_char(&mut id, ':');
    amount.push_text(&mut id);
    push_char(&mut id, ':');
    push_i64(&mut id, epoch_millis);
    assert(id@ =~= import_id_text(amount@, epoch_millis));
    id
}

/// Maps one statement row to the ledger's transaction for `account`.
///
/// The amount is scaled to thousandths and made negative for a debit, the
/// date is the row's calendar date, the payee is the description as it
/// stands, and the transaction counts as cleared. Category, memo, flag and
/// approval are left to the ledger's user.
pub fn map_transaction(transaction: &SourceTransaction, account: AccountId) -> (result:
    LedgerTransaction)
    ensures
        result@ == mapped(transaction@, account),
{
    let negated = match transaction.direction {
        Direction::Debit => true,
        Direction::Credit => false,
    };
    let amount = transaction.amount.thousandths_saturating(negated);
    let import_id = import_id(&transaction.amount, transaction.timestamp.epoch_millis);
    LedgerTransaction {
        account_id: account,
        amount,
        cleared: ClearedStatus::Cleared,
        date: transaction.timestamp.date(),
        import_id,
        payee_name: transaction.description.clone(),
        category_id: None,
        memo: None,
        flag_color: None,
        approved: None,
    }
}

/// The ledger transactions of a whole statement, row by row.
pub open spec fn mapped_batch(records: Seq<SourceRecord>, account: AccountId) -> Seq<LedgerRecord> {
    records.map_values(|record: SourceRecord| mapped(record, account))
}

/// Maps every row of a statement, in order, for `account`.
pub fn map_batch(transactions: &Vec<SourceTransaction>, account: AccountId) -> (result: Vec<
    LedgerTransaction,
>)
    ensures
        ledger_records_of(result@) == mapped_batch(records_of(transactions@), account),
{
    let mut result: Vec<LedgerTransaction> = Vec::new();
    let mut i: usize = 0;
    while i < transactions.len()
        invariant
            i <= transactions.len(),
            result.len() == i,
            forall|k: int| 0 <= k < i ==> (#[trigger] result[k])@ == mapped(transactions[k]@, account),
        decreases transactions.len() - i,
    {
        result.push(map_transaction(&transactions[i], account));
        i += 1;
    }
    assert(ledger_records_of(result@) =~= mapped_batch(records_of(transactions@), account));
    result
}

/// Mapping is a function of the row: rows with the same content map to the
/// same transaction, and two rows that agree in amount and timestamp get the
/// same import identifier whatever else they hold.
pub proof fn theorem_mapping_is_deterministic(
    first: SourceTransaction,
    second: SourceTransaction,
    account: AccountId,
)
    ensures
        first@ == second@ ==> mapped(first@, account) == mapped(second@, account),
        first@.amount == second@.amount && first@.timestamp.epoch_millis
            == second@.timestamp.epoch_millis ==> mapped(first@, account).import_id == mapped(
            second@,
            account,
        ).import_id,
{
}

/// Where the statement gives the amount without a minus sign, a debit maps to
/// an amount of at most zero and a credit to one of at least zero. The
/// mapped amount is zero exactly when the statement's amount is below one
/// thousandth, which for an amount of at most three places after the point
/// means that it is zero.
pub proof fn theorem_sign_follows_direction(record: SourceRecord)
    requires
        !record.amount.negative,
    ensures
        record.direction == Direction::Debit ==> ledger_amount(record.direction, record.amount)
            <= 0,
        record.direction == Direction::Credit ==> ledger_amount(record.direction, record.amount)
            >= 0,
        ledger_amount(record.direction, record.amount) == 0
            <==> record.amount.magnitude_thousandths() == 0,
        record.amount.is_canonical() && record.amount.scale() <= 3 ==> (ledger_amount(
            record.direction,
            record.amount,
        ) == 0 <==> record.amount.is_zero()),
{
    if record.amount.is_canonical() && record.amount.scale() <= 3 {
        crate::amount::lemma_thousandths_zero(record.amount);
    }
}

/// Where the scaled amount fits 64 bits, the mapped amount is the
/// statement's amount, signed by its direction, times one thousand and
/// rounded toward zero.
pub proof fn theorem_amount_is_scaled(record: SourceRecord, account: AccountId)
    requires
        i64::MIN <= signed_thousandths(record.direction, record.amount) <= i64::MAX,
    ensures
        mapped(record, account).amount == signed_thousandths(record.direction, record.amount),
        record.direction == Direction::Credit && !record.amount.negative ==> mapped(
            record,
            account,
        ).amount == (record.amount.mantissa() * 1000) / pow10(record.amount.scale()),
        record.direction == Direction::Debit && !record.amount.negative ==> mapped(
            record,
            account,
        ).amount == -((record.amount.mantissa() * 1000) / pow10(record.amount.scale())),
{
}

/// An import identifier is four characters longer than the texts of amount
/// and timestamp together, so it stays under the ledger's limit exactly when
/// those two have fewer than 32 characters.
pub proof fn theorem_import_id_length(amount: Decimal, epoch_millis: i64)
    ensures
        import_id_text(amount, epoch_millis).len() == 4 + amount.text().len() + int_text(
            epoch_millis as int,
        ).len(),
        import_id_text(amount, epoch_millis).len() < MAX_IMPORT_ID_LEN <==> amount.text().len()
            + int_text(epoch_millis as int).len() < 32,
{
}

/// The import identifier stays under the ledger's limit for every amount of
/// at most fourteen digits and every timestamp from the year 1654 to
/// 5137.
pub proof fn theorem_import_id_fits(amount: Decimal, epoch_millis: i64)
    requires
        amount.whole.len() + amount.fraction.len() <= 14,
        -10_000_000_000_000 < epoch_millis < 100_000_000_000_000,
    ensures
        import_id_text(amount, epoch_millis).len() < MAX_IMPORT_ID_LEN,
{
    theorem_import_id_length(amount, epoch_millis);
    assert(pow10(13) == 10_000_000_000_000 && pow10(14) == 100_000_000_000_000) by {
        reveal_with_fuel(pow10, 15);
    }
    if epoch_millis < 0 {
        lemma_nat_text_len((-epoch_millis) as nat, 13);
    } else {
        lemma_nat_text_len(epoch_millis as nat, 14);
    }
}

/// The import identifier tells amount and timestamp apart: two identifiers
/// are the same only if they were made from the same amount and the same
/// millisecond.
pub proof fn theorem_import_id_is_unique(
    first: Decimal,
    first_millis: i64,
    second: Decimal,
    second_millis: i64,
)
    requires
        first.is_canonical(),
        second.is_canonical(),
        import_id_text(first, first_millis) == import_id_text(second, second_millis),
    ensures
        first == second,
        first_millis == second_millis,
{
    let (a, b) = (first.text(), second.text());
    let (m, n) = (int_text(first_millis as int), int_text(second_millis as int));
    let rest_a = a + seq![':'] + m;
    let rest_b = b + seq![':'] + n;
    assert(rest_a =~= import_id_text(first, first_millis).skip(3));
    assert(rest_b =~= import_id_text(second, second_millis).skip(3));
    lemma_text_alphabet(first);
    lemma_text_alphabet(second);
    // The amount ends at the first colon.
    assert(a.len() == b.len()) by {
        if a.len() < b.len() {
            let k = a.len() as int;
            assert(rest_a[k] == ':');
            assert(rest_b[k] == b[k]);
        } else if b.len() < a.len() {
            let k = b.len() as int;
            assert(rest_b[k] == ':');
            assert(rest_a[k] == a[k]);
        }
    }
    assert(a =~= rest_a.take(a.len() as int));
    assert(b =~= rest_b.take(b.len() as int));
    assert(m =~= rest_a.skip(a.len() as int + 1));
    assert(n =~= rest_b.skip(b.len() as int + 1));
    lemma_text_injective(first, second);
    lemma_int_text_injective(first_millis as int, second_millis as int);
}

} // verus!
