//! Rows of a statement export, and the decoder that reads them.
//!
//! An export is a CSV file: a header row that names the columns, then one row
//! per transaction. Splitting the bytes into rows and cells is the csv
//! crate's work. What the header must hold and how each cell is read is
//! decided here.

use vstd::prelude::*;
use crate::amount::{lemma_parse_decimal_canonical, parse_decimal, Amount, Decimal};
use crate::text::{nat_text, push_u64};
use crate::timestamp::{timestamp_of, Timestamp};

verus! {

/// Whether money left the account or came in.
#[derive(Clone, Copy, Debug, PartialEq, Eq)]
pub enum Direction {
    Debit,
    Credit,
}

/// One transaction of a statement, as the export gives it.
#[derive(Clone, Debug, PartialEq, Eq)]
pub struct SourceTransaction {
    pub timestamp: Timestamp,
    pub description: String,
    pub amount: Amount,
    pub charged_amount: Amount,
    pub currency: String,
    pub category: String,
    pub direction: Direction,
    pub country: String,
}

/// The mathematical content of a [`SourceTransaction`].
pub struct SourceRecord {
    pub timestamp: Timestamp,
    pub description: Seq<char>,
    pub amount: Decimal,
    pub charged_amount: Decimal,
    pub currency: Seq<char>,
    pub category: Seq<char>,
    pub direction: Direction,
    pub country: Seq<char>,
}

impl View for SourceTransaction {
    type V = SourceRecord;

    open spec fn view(&self) -> SourceRecord {
        SourceRecord {
            timestamp: self.timestamp,
            description: self.description@,
            amount: self.amount@,
            charged_amount: self.charged_amount@,
            currency: self.currency@,
            category: self.category@,
            direction: self.direction,
            country: self.country@,
        }
    }
}

/// The records that a vector of transactions holds, in order.
pub open spec fn records_of(transactions: Seq<SourceTransaction>) -> Seq<SourceRecord> {
    transactions.map_values(|t: SourceTransaction| t@)
}

/// The columns that every export must have.
#[derive(Clone, Copy, Debug, PartialEq, Eq)]
pub enum Column {
    DateTime,
    Description,
    Amount,
    ChargedAmount,
    Currency,
    Category,
    Direction,
    Country,
}

impl Column {
    /// The name that the header row gives the column.
    pub open spec fn title(self) -> Seq<char> {
        match self {
            Column::DateTime => "Date/Time of transaction"@,
            Column::Description => "Description"@,
            Column::Amount => "Amount (GBP)"@,
            Column::ChargedAmount => "Amount (in Charged Currency)"@,
            Column::Currency => "Currency"@,
            Column::Category => "Category"@,
            Column::Direction => "Debit or Credit"@,
            Column::Country => "Country"@,
        }
    }

    /// The name that the header row gives the column.
    pub fn name(self) -> (name: &'static str)
        ensures
            name@ == self.title(),
    {
        match self {
            Column::DateTime => "Date/Time of transaction",
            Column::Description => "Description",
            Column::Amount => "Amount (GBP)",
            Column::ChargedAmount => "Amount (in Charged Currency)",
            Column::Currency => "Currency",
            Column::Category => "Category",
            Column::Direction => "Debit or Credit",
            Column::Country => "Country",
        }
    }
}

/// Why an export could not be decoded.
#[derive(Clone, Debug, PartialEq, Eq)]
pub enum DecodeError {
    /// The bytes are no CSV table: the message is the csv crate's.
    Malformed { message: String },
    /// There is no header row.
    MissingHeader,
    /// The header row lacks a required column.
    MissingColumn { column: Column },
    /// The header row names a required column more than once.
    DuplicateColumn { column: Column },
    /// A row has another number of cells than the header row.
    ColumnCount { row: usize },
    /// The timestamp of a row cannot be read.
    BadTimestamp { row: usize },
    /// The amount of a row is no decimal numeral.
    BadAmount { row: usize },
    /// The amount in charged currency of a row is no decimal numeral.
    BadChargedAmount { row: usize },
    /// The direction of a row is neither `Debit` nor `Credit`.
    BadDirection { row: usize },
}

/// The direction that `text` names: exactly `Debit` or `Credit`.
pub open spec fn direction_of(text: Seq<char>) -> Option<Direction> {
    if text == "Debit"@ {
        Some(Direction::Debit)
    } else if text == "Credit"@ {
        Some(Direction::Credit)
    } else {
        None
    }
}

/// How often `name` occurs among `cells`.
pub open spec fn occurrences(cells: Seq<Seq<char>>, name: Seq<char>) -> nat
    decreases cells.len(),
{
    if cells.len() == 0 {
        0
    } else {
        occurrences(cells.drop_last(), name) + if cells.last() == name {
            1nat
        } else {
            0nat
        }
    }
}

/// The place of the last cell that equals `name`, or -1 if there is none.
pub open spec fn last_place(cells: Seq<Seq<char>>, name: Seq<char>) -> int
    decreases cells.len(),
{
    if cells.len() == 0 {
        -1
    } else if cells.last() == name {
        cells.len() - 1
    } else {
        last_place(cells.drop_last(), name)
    }
}

/// Where a header row has the given column: the place of the one cell that
/// holds the column's name.
pub open spec fn place_of(header: Seq<Seq<char>>, column: Column) -> Result<int, DecodeError> {
    let count = occurrences(header, column.title());
    if count == 0 {
        Err(DecodeError::MissingColumn { column })
    } else if count > 1 {
        Err(DecodeError::DuplicateColumn { column })
    } else {
        Ok(last_place(header, column.title()))
    }
}

/// Where each required column stands in the rows of an export.
pub struct Layout {
    pub width: usize,
    pub timestamp: usize,
    pub description: usize,
    pub amount: usize,
    pub charged_amount: usize,
    pub currency: usize,
    pub category: usize,
    pub direction: usize,
    pub country: usize,
}

impl Layout {
    /// Every place lies within a row.
    pub open spec fn fits(self) -> bool {
        &&& self.timestamp < self.width
        &&& self.description < self.width
        &&& self.amount < self.width
        &&& self.charged_amount < self.width
        &&& self.currency < self.width
        &&& self.category < self.width
        &&& self.direction < self.width
        &&& self.country < self.width
    }
}

/// The layout that a header row gives. The columns are looked up in the
/// order of [`Column`], and the first one that is missing or named twice
/// decides the error. Columns with other names are passed over.
pub open spec fn layout_of(header: Seq<Seq<char>>) -> Result<Layout, DecodeError> {
    match place_of(header, Column::DateTime) {
        Err(e) => Err(e),
        Ok(timestamp) => match place_of(header, Column::Description) {
            Err(e) => Err(e),
            Ok(description) => match place_of(header, Column::Amount) {
                Err(e) => Err(e),
                Ok(amount) => match place_of(header, Column::ChargedAmount) {
                    Err(e) => Err(e),
                    Ok(charged_amount) => match place_of(header, Column::Currency) {
                        Err(e) => Err(e),
                        Ok(currency) => match place_of(header, Column::Category) {
                            Err(e) => Err(e),
                            Ok(category) => match place_of(header, Column::Direction) {
                                Err(e) => Err(e),
                                Ok(direction) => match place_of(header, Column::Country) {
                                    Err(e) => Err(e),
                                    Ok(country) => Ok(
                                        Layout {
                                            width: header.len() as usize,
                                            timestamp: timestamp as usize,
                                            description: description as usize,
                                            amount: amount as usize,
                                            charged_amount: charged_amount as usize,
                                            currency: currency as usize,
                                            category: category as usize,
                                            direction: direction as usize,
                                            country: country as usize,
                                        },
                                    ),
                                },
                            },
                        },
                    },
                },
            },
        },
    }
}

/// The record that a row holds under a layout. The row must be as wide as
/// the header; then timestamp, amount, amount in charged currency and
/// direction are read in this order, and the first cell that cannot be read
/// decides the error. The other cells are taken as they are.
pub open spec fn record_of(layout: Layout, cells: Seq<Seq<char>>, row: usize) -> Result<
    SourceRecord,
    DecodeError,
> {
    if cells.len() != layout.width {
        Err(DecodeError::ColumnCount { row })
    } else {
        match timestamp_of(cells[layout.timestamp as int]) {
            None => Err(DecodeError::BadTimestamp { row }),
            Some(timestamp) => match parse_decimal(cells[layout.amount as int]) {
                None => Err(DecodeError::BadAmount { row }),
                Some(amount) => match parse_decimal(cells[layout.charged_amount as int]) {
                    None => Err(DecodeError::BadChargedAmount { row }),
                    Some(charged_amount) => match direction_of(cells[layout.direction as int]) {
                        None => Err(DecodeError::BadDirection { row }),
                        Some(direction) => Ok(
                            SourceRecord {
                                timestamp,
                                description: cells[layout.description as int],
                                amount,
                                charged_amount,
                                currency: cells[layout.currency as int],
                                category: cells[layout.category as int],
                                direction,
                                country: cells[layout.country as int],
                            },
                        ),
                    },
                },
            },
        }
    }
}

/// The records of the rows `1 .. upto` of a table, row 0 being the header.
/// The first row that fails decides the error: no record of a table is given
/// out unless every row can be read.
pub open spec fn records_upto(layout: Layout, table: Seq<Seq<Seq<char>>>, upto: int) -> Result<
    Seq<SourceRecord>,
    DecodeError,
>
    decreases upto,
{
    if upto <= 1 {
        Ok(Seq::empty())
    } else {
        match records_upto(layout, table, upto - 1) {
            Err(e) => Err(e),
            Ok(records) => match record_of(layout, table[upto - 1], (upto - 1) as usize) {
                Err(e) => Err(e),
                Ok(record) => Ok(records.push(record)),
            },
        }
    }
}

/// What a table of cells decodes to: the records of all its rows after the
/// header, or the first error met.
pub open spec fn decode_table(table: Seq<Seq<Seq<char>>>) -> Result<
    Seq<SourceRecord>,
    DecodeError,
> {
    if table.len() == 0 {
        Err(DecodeError::MissingHeader)
    } else {
        match layout_of(table[0]) {
            Err(e) => Err(e),
            Ok(layout) => records_upto(layout, table, table.len() as int),
        }
    }
}

/// The cells of a row as character sequences.
pub open spec fn cells_of(row: Vec<String>) -> Seq<Seq<char>> {
    row@.map_values(|cell: String| cell@)
}

/// The rows of a table as sequences of cells.
pub open spec fn table_of(rows: Vec<Vec<String>>) -> Seq<Seq<Seq<char>>> {
    rows@.map_values(|row: Vec<String>| cells_of(row))
}

/// The csv crate's error. Nothing is read from it but its message.
#[verifier::external_type_specification]
#[verifier::external_body]
pub struct ExCsvError(csv::Error);

/// The table that the csv crate reads from `bytes`, header row first: the
/// cells of each row, in order. `None` where it reports an error, as it does
/// for a row that is longer or shorter than the first, and for bytes that
/// are not UTF-8.
pub uninterp spec fn csv_rows(bytes: Seq<u8>) -> Option<Seq<Seq<Seq<char>>>>;

/// `csv::Reader::records` on a reader over `bytes` that takes the first row
/// as a row like the others: the rows in order, each with its cells in
/// order, or the first error that the reader reports.
#[verifier::external_body]
fn read_rows(bytes: &[u8]) -> (result: Result<Vec<Vec<String>>, csv::Error>)
    ensures
        match result {
            Ok(rows) => csv_rows(bytes@) == Some(table_of(rows)),
            Err(_) => csv_rows(bytes@) is None,
        },
{
    let mut reader = csv::ReaderBuilder::new().has_headers(false).from_reader(bytes);
    let mut rows: Vec<Vec<String>> = Vec::new();
    for record in reader.records() {
        rows.push(record?.iter().map(String::from).collect());
    }
    Ok(rows)
}

/// The message of a `csv::Error`, as its `Display` writes it.
#[verifier::external_body]
fn csv_error_message(error: &csv::Error) -> String {
    error.to_string()
}

/// Looks for the one cell of the header row that names `column`.
fn find_column(header: &Vec<String>, column: Column) -> (result: Result<usize, DecodeError>)
    ensures
        match result {
            Ok(place) => place_of(cells_of(*header), column) == Ok::<int, DecodeError>(
                place as int,
            ) && place < header.len(),
            Err(e) => place_of(cells_of(*header), column) == Err::<int, DecodeError>(e),
        },
{
    let name = String::from_str(column.name());
    let ghost cells = cells_of(*header);
    let mut count: usize = 0;
    let mut place: usize = 0;
    let mut i: usize = 0;
    while i < header.len()
        invariant
            i <= header.len(),
            cells == cells_of(*header),
            name@ == column.title(),
            count <= i,
            count == occurrences(cells.take(i as int), name@),
            count > 0 ==> place < i && place == last_place(cells.take(i as int), name@),
        decreases header.len() - i,
    {
        proof {
            assert(cells.take(i + 1).drop_last() =~= cells.take(i as int));
            assert(cells.take(i + 1).last() == header[i as int]@);
        }
        if header[i] == name {
            count += 1;
            place = i;
        }
        i += 1;
    }
    proof {
        assert(cells.take(header.len() as int) =~= cells);
    }
    if count == 0 {
        Err(DecodeError::MissingColumn { column })
    } else if count > 1 {
        Err(DecodeError::DuplicateColumn { column })
    } else {
        Ok(place)
    }
}

/// Reads the layout of an export from its header row.
pub fn read_layout(header: &Vec<String>) -> (result: Result<Layout, DecodeError>)
    ensures
        result == layout_of(cells_of(*header)),
        result matches Ok(layout) ==> layout.fits() && layout.width == header.len(),
{
    let timestamp = match find_column(header, Column::DateTime) {
        Ok(place) => place,
        Err(e) => { return Err(e); },
    };
    let description = match find_column(header, Column::Description) {
        Ok(place) => place,
        Err(e) => { return Err(e); },
    };
    let amount = match find_column(header, Column::Amount) {
        Ok(place) => place,
        Err(e) => { return Err(e); },
    };
    let charged_amount = match find_column(header, Column::ChargedAmount) {
        Ok(place) => place,
        Err(e) => { return Err(e); },
    };
    let currency = match find_column(header, Column::Currency) {
        Ok(place) => place,
        Err(e) => { return Err(e); },
    };
    let category = match find_column(header, Column::Category) {
        Ok(place) => place,
        Err(e) => { return Err(e); },
    };
    let direction = match find_column(header, Column::Direction) {
        Ok(place) => place,
        Err(e) => { return Err(e); },
    };
    let country = match find_column(header, Column::Country) {
        Ok(place) => place,
        Err(e) => { return Err(e); },
    };
    Ok(
        Layout {
            width: header.len(),
            timestamp,
            description,
            amount,
            charged_amount,
            currency,
            category,
            direction,
            country,
        },
    )
}

/// Reads a direction: exactly `Debit` or `Credit`.
pub fn read_direction(text: &String) -> (result: Option<Direction>)
    ensures
        result == direction_of(text@),
{
    if *text == String::from_str("Debit") {
        Some(Direction::Debit)
    } else if *text == String::from_str("Credit") {
        Some(Direction::Credit)
    } else {
        None
    }
}

/// Reads the transaction of one row. `row` is the number under which an
/// error reports the row.
fn read_row(layout: &Layout, cells: &Vec<String>, row: usize) -> (result: Result<
    SourceTransaction,
    DecodeError,
>)
    requires
        layout.fits(),
    ensures
        match result {
            Ok(transaction) => record_of(*layout, cells_of(*cells), row) == Ok::<
                SourceRecord,
                DecodeError,
            >(transaction@),
            Err(e) => record_of(*layout, cells_of(*cells), row) == Err::<SourceRecord, DecodeError>(
                e,
            ),
        },
{
    if cells.len() != layout.width {
        return Err(DecodeError::ColumnCount { row });
    }
    let timestamp = match Timestamp::parse(cells[layout.timestamp].as_str()) {
        Some(timestamp) => timestamp,
        None => { return Err(DecodeError::BadTimestamp { row }); },
    };
    let amount = match Amount::parse(cells[layout.amount].as_str()) {
        Some(amount) => amount,
        None => { return Err(DecodeError::BadAmount { row }); },
    };
    let charged_amount = match Amount::parse(cells[layout.charged_amount].as_str()) {
        Some(amount) => amount,
        None => { return Err(DecodeError::BadChargedAmount { row }); },
    };
    let direction = match read_direction(&cells[layout.direction]) {
        Some(direction) => direction,
        None => { return Err(DecodeError::BadDirection { row }); },
    };
    Ok(
        SourceTransaction {
            timestamp,
            description: cells[layout.description].clone(),
            amount,
            charged_amount,
            currency: cells[layout.currency].clone(),
            category: cells[layout.category].clone(),
            direction,
            country: cells[layout.country].clone(),
        },
    )
}

/// Decodes a table of cells whose first row is the header: all its
/// transactions in order, or the first error and no transaction at all.
pub fn decode_rows(rows: &Vec<Vec<String>>) -> (result: Result<Vec<SourceTransaction>, DecodeError>)
    ensures
        match result {
            Ok(transactions) => decode_table(table_of(*rows)) == Ok::<
                Seq<SourceRecord>,
                DecodeError,
            >(records_of(transactions@)),
            Err(e) => decode_table(table_of(*rows)) == Err::<Seq<SourceRecord>, DecodeError>(e),
        },
{
    if rows.len() == 0 {
        return Err(DecodeError::MissingHeader);
    }
    let layout = match read_layout(&rows[0]) {
        Ok(layout) => layout,
        Err(e) => { return Err(e); },
    };
    let ghost table = table_of(*rows);
    let mut transactions: Vec<SourceTransaction> = Vec::new();
    let mut i: usize = 1;
    proof {
        assert(table[0] == cells_of(rows[0]));
        assert(records_of(transactions@) =~= Seq::empty());
    }
    while i < rows.len()
        invariant
            1 <= i <= rows.len(),
            table == table_of(*rows),
            layout_of(table[0]) == Ok::<Layout, DecodeError>(layout),
            layout.fits(),
            records_upto(layout, table, i as int) == Ok::<Seq<SourceRecord>, DecodeError>(
                records_of(transactions@),
            ),
        decreases rows.len() - i,
    {
        proof {
            assert(table[i as int] == cells_of(rows[i as int]));
        }
        match read_row(&layout, &rows[i], i) {
            Ok(transaction) => {
                proof {
                    assert(records_of(transactions@.push(transaction)) =~= records_of(
                        transactions@,
                    ).push(transaction@));
                }
                transactions.push(transaction);
            },
            Err(e) => {
                proof {
                    assert(records_upto(layout, table, i + 1) == Err::<
                        Seq<SourceRecord>,
                        DecodeError,
                    >(e));
                    lemma_error_stays(layout, table, i + 1, rows.len() as int);
                }
                return Err(e);
            },
        }
        i += 1;
    }
    Ok(transactions)
}

/// Decodes the bytes of an export: all its transactions in order, or the
/// first error and no transaction at all.
pub fn decode(bytes: &[u8]) -> (result: Result<Vec<SourceTransaction>, DecodeError>)
    ensures
        match csv_rows(bytes@) {
            Some(table) => match result {
                Ok(transactions) => decode_table(table) == Ok::<Seq<SourceRecord>, DecodeError>(
                    records_of(transactions@),
                ),
                Err(e) => decode_table(table) == Err::<Seq<SourceRecord>, DecodeError>(e),
            },
            None => result matches Err(DecodeError::Malformed { .. }),
        },
{
    match read_rows(bytes) {
        Ok(rows) => decode_rows(&rows),
        Err(error) => Err(DecodeError::Malformed { message: csv_error_message(&error) }),
    }
}

/// The text for a fault in the row with the given number.
pub open spec fn row_fault_text(row: usize, fault: Seq<char>) -> Seq<char> {
    "failed to deserialize as Yonder transactions CSV: row "@ + nat_text(row as nat) + ": "@
        + fault
}

/// The text for a fault that belongs to no row.
pub open spec fn table_fault_text(fault: Seq<char>) -> Seq<char> {
    "failed to deserialize as Yonder transactions CSV: "@ + fault
}

fn row_fault(row: usize, fault: &str) -> (text: String)
    ensures
        text@ == row_fault_text(row, fault@),
{
    let mut text = String::from_str("failed to deserialize as Yonder transactions CSV: row ");
    push_u64(&mut text, row as u64);
    text.append(": ");
    text.append(fault);
    text
}

fn table_fault(fault: &str) -> (text: String)
    ensures
        text@ == table_fault_text(fault@),
{
    let mut text = String::from_str("failed to deserialize as Yonder transactions CSV: ");
    text.append(fault);
    text
}

impl DecodeError {
    /// The error in words, as it is shown to whoever sent the export.
    pub open spec fn message_text(self) -> Seq<char> {
        match self {
            DecodeError::Malformed { message } => table_fault_text(message@),
            DecodeError::MissingHeader => table_fault_text("missing header row"@),
            DecodeError::MissingColumn { column } => table_fault_text(
                "missing column: "@ + column.title(),
            ),
            DecodeError::DuplicateColumn { column } => table_fault_text(
                "duplicate column: "@ + column.title(),
            ),
            DecodeError::ColumnCount { row } => row_fault_text(row, "wrong number of columns"@),
            DecodeError::BadTimestamp { row } => row_fault_text(row, "unparseable timestamp"@),
            DecodeError::BadAmount { row } => row_fault_text(row, "unparseable amount"@),
            DecodeError::BadChargedAmount { row } => row_fault_text(
                row,
                "unparseable amount in charged currency"@,
            ),
            DecodeError::BadDirection { row } => row_fault_text(row, "unrecognized direction"@),
        }
    }

    /// The error in words, as it is shown to whoever sent the export.
    pub fn message(&self) -> (text: String)
        ensures
            text@ == self.message_text(),
    {
        match self {
            DecodeError::Malformed { message } => table_fault(message.as_str()),
            DecodeError::MissingHeader => table_fault("missing header row"),
            DecodeError::MissingColumn { column } => {
                let mut fault = String::from_str("missing column: ");
                fault.append(column.name());
                table_fault(fault.as_str())
            },
            DecodeError::DuplicateColumn { column } => {
                let mut fault = String::from_str("duplicate column: ");
                fault.append(column.name());
                table_fault(fault.as_str())
            },
            DecodeError::ColumnCount { row } => row_fault(*row, "wrong number of columns"),
            DecodeError::BadTimestamp { row } => row_fault(*row, "unparseable timestamp"),
            DecodeError::BadAmount { row } => row_fault(*row, "unparseable amount"),
            DecodeError::BadChargedAmount { row } => row_fault(
                *row,
                "unparseable amount in charged currency",
            ),
            DecodeError::BadDirection { row } => row_fault(*row, "unrecognized direction"),
        }
    }
}

/// Once the rows up to some row give an error, the rows up to any later row
/// give the same error.
pub proof fn lemma_error_stays(layout: Layout, table: Seq<Seq<Seq<char>>>, upto: int, later: int)
    requires
        upto <= later,
        records_upto(layout, table, upto) is Err,
    ensures
        records_upto(layout, table, later) == records_upto(layout, table, upto),
    decreases later - upto,
{
    if upto < later {
        lemma_error_stays(layout, table, upto, later - 1);
    }
}

/// The rows up to some row give records only if each of them can be read,
/// and then one record for each row, in order.
pub proof fn lemma_records_upto(layout: Layout, table: Seq<Seq<Seq<char>>>, upto: int)
    requires
        1 <= upto <= table.len(),
    ensures
        match records_upto(layout, table, upto) {
            Ok(records) => {
                &&& records.len() == upto - 1
                &&& forall|i: int|
                    1 <= i < upto ==> record_of(layout, #[trigger] table[i], i as usize) == Ok::<
                        SourceRecord,
                        DecodeError,
                    >(records[i - 1])
            },
            Err(_) => exists|i: int|
                1 <= i < upto && record_of(layout, #[trigger] table[i], i as usize) is Err,
        },
    decreases upto,
{
    if upto > 1 {
        lemma_records_upto(layout, table, upto - 1);
        match records_upto(layout, table, upto - 1) {
            Ok(records) => {
                match record_of(layout, table[upto - 1], (upto - 1) as usize) {
                    Ok(record) => {},
                    Err(_) => {
                        assert(record_of(layout, table[upto - 1], (upto - 1) as usize) is Err);
                    },
                }
            },
            Err(_) => {
                let i = choose|i: int|
                    1 <= i < upto - 1 && record_of(layout, #[trigger] table[i], i as usize) is Err;
                assert(record_of(layout, table[i], i as usize) is Err);
            },
        }
    }
}

/// A row is read exactly if it is as wide as the header and its timestamp,
/// its two amounts and its direction can each be read.
pub proof fn theorem_row_faults(layout: Layout, cells: Seq<Seq<char>>, row: usize)
    ensures
        record_of(layout, cells, row) is Ok <==> {
            &&& cells.len() == layout.width
            &&& timestamp_of(cells[layout.timestamp as int]) is Some
            &&& parse_decimal(cells[layout.amount as int]) is Some
            &&& parse_decimal(cells[layout.charged_amount as int]) is Some
            &&& direction_of(cells[layout.direction as int]) is Some
        },
{
}

/// The amounts of a row that was read are canonical.
pub proof fn theorem_amounts_are_canonical(layout: Layout, cells: Seq<Seq<char>>, row: usize)
    ensures
        record_of(layout, cells, row) matches Ok(record) ==> record.amount.is_canonical()
            && record.charged_amount.is_canonical(),
{
    lemma_parse_decimal_canonical(cells[layout.amount as int]);
    lemma_parse_decimal_canonical(cells[layout.charged_amount as int]);
}

/// A table decodes only as a whole: if it decodes, its header gives a layout
/// and there is one record for each row after the header, in order, which is
/// what that row holds.
pub proof fn theorem_decode_is_all_or_nothing(table: Seq<Seq<Seq<char>>>)
    ensures
        decode_table(table) matches Ok(records) ==> {
            &&& table.len() >= 1
            &&& records.len() == table.len() - 1
            &&& layout_of(table[0]) matches Ok(layout) && forall|i: int|
                1 <= i < table.len() ==> record_of(layout, #[trigger] table[i], i as usize) == Ok::<
                    SourceRecord,
                    DecodeError,
                >(records[i - 1])
        },
{
    if table.len() > 0 {
        match layout_of(table[0]) {
            Ok(layout) => {
                lemma_records_upto(layout, table, table.len() as int);
            },
            Err(_) => {},
        }
    }
}

/// Nothing is decoded from a table without a header row, from one whose
/// header lacks a required column or names it twice, or from one with a row
/// that cannot be read.
pub proof fn theorem_decode_rejects_malformed(table: Seq<Seq<Seq<char>>>)
    ensures
        table.len() == 0 ==> decode_table(table) is Err,
        forall|column: Column|
            table.len() > 0 && occurrences(table[0], #[trigger] column.title()) != 1
                ==> decode_table(table) is Err,
        forall|i: int|
            1 <= i < table.len() && (layout_of(table[0]) matches Ok(layout) && record_of(
                layout,
                #[trigger] table[i],
                i as usize,
            ) is Err) ==> decode_table(table) is Err,
{
    if table.len() > 0 {
        let header = table[0];
        assert forall|column: Column| occurrences(header, #[trigger] column.title()) != 1 implies layout_of(
            header,
        ) is Err by {
            assert(place_of(header, column) is Err);
            match column {
                Column::DateTime => {},
                Column::Description => {},
                Column::Amount => {},
                Column::ChargedAmount => {},
                Column::Currency => {},
                Column::Category => {},
                Column::Direction => {},
                Column::Country => {},
            }
        }
        match layout_of(header) {
            Ok(layout) => {
                lemma_records_upto(layout, table, table.len() as int);
            },
            Err(_) => {},
        }
    }
}

} // verus!
