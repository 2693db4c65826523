//! Rows of text, read and written by the `csv` crate.
//!
//! The crate does the work on bytes. What it finds in the bytes of an input,
//! and what bytes it makes of rows, is named here and not spelled out.

use crate::text::texts;
use std::collections::HashMap;
use vstd::prelude::*;

verus! {

#[verifier::external_type_specification]
#[verifier::external_body]
pub struct ExReaderBuilder(csv::ReaderBuilder);

#[verifier::external_type_specification]
#[verifier::external_body]
pub struct ExCsvError(csv::Error);

#[verifier::external_type_specification]
#[verifier::external_body]
pub struct ExWriterBuilder(csv::WriterBuilder);

/// A `csv::Writer` that fills a vector of bytes.
#[verifier::external_body]
pub struct TableWriter {
    inner: csv::Writer<Vec<u8>>,
}

/// The options of a `csv::ReaderBuilder` that this format sets.
pub struct ReaderSettings {
    pub has_headers: bool,
    /// Whether records may differ in their number of fields.
    pub flexible: bool,
    pub delimiter: u8,
    pub quote: u8,
    pub escape: Option<u8>,
}

/// The settings of a builder. The options that are not listed stay as
/// `ReaderBuilder::new` leaves them.
pub uninterp spec fn settings_of(b: csv::ReaderBuilder) -> ReaderSettings;

/// The records that a reader with these settings finds in `input`, in order:
/// the fields of each record that it reads, `None` for one that it reports as
/// an error.
pub uninterp spec fn csv_rows(settings: ReaderSettings, input: Seq<u8>) -> Seq<
    Option<Seq<Seq<char>>>,
>;

/// Whether a reader with these settings finds a first record in `input` to
/// turn into a map of strings, and whether that went well.
pub uninterp spec fn csv_first_row(settings: ReaderSettings, input: Seq<u8>) -> Option<bool>;

/// The options of a `csv::WriterBuilder` that this format sets.
pub struct WriterSettings {
    pub delimiter: u8,
    pub quote: u8,
}

/// The settings of a writer builder. The options that are not listed stay
/// as `WriterBuilder::new` leaves them: a quote inside a field is written
/// twice, and no escape byte is used.
pub uninterp spec fn writer_settings_of(b: csv::WriterBuilder) -> WriterSettings;

/// The settings that a writer was made with.
pub uninterp spec fn made_with(w: TableWriter) -> WriterSettings;

/// The rows that a writer has taken so far.
pub uninterp spec fn written_rows(w: TableWriter) -> Seq<Seq<Seq<char>>>;

/// The bytes that a writer with these settings makes of these rows.
pub uninterp spec fn csv_text(settings: WriterSettings, rows: Seq<Seq<Seq<char>>>) -> Seq<u8>;

/// The cells of a row of a table, or the fields of a record of an input.
pub type Row = Seq<Seq<char>>;

/// The rows of a table, the header first.
pub type Table = Seq<Row>;

/// What each row of a table holds.
pub open spec fn table_texts(rows: Seq<Vec<String>>) -> Table {
    rows.map_values(|row: Vec<String>| texts(row@))
}

/// What was read of each record: its fields, or `None` for an error.
pub open spec fn read_texts(rows: Seq<Result<Vec<String>, csv::Error>>) -> Seq<Option<Row>> {
    rows.map_values(
        |row: Result<Vec<String>, csv::Error>|
            match row {
                Ok(fields) => Some(texts(fields@)),
                Err(_) => None,
            },
    )
}

/// `ReaderBuilder::new`: a builder with the defaults of the crate: a header
/// row, records of one length, a comma between fields, the double quote for
/// quoting, no escape.
#[verifier::external_body]
pub(crate) fn builder_new() -> (b: csv::ReaderBuilder)
    ensures
        settings_of(b) == (ReaderSettings {
            has_headers: true,
            flexible: false,
            delimiter: 44,
            quote: 34,
            escape: None,
        }),
{
    csv::ReaderBuilder::new()
}

/// `ReaderBuilder::has_headers`: sets whether the first record is a header.
#[verifier::external_body]
pub(crate) fn builder_has_headers(b: &mut csv::ReaderBuilder, yes: bool)
    ensures
        settings_of(*final(b)) == (ReaderSettings { has_headers: yes, ..settings_of(*old(b)) }),
{
    b.has_headers(yes);
}

/// `ReaderBuilder::flexible`: sets whether records may differ in their
/// number of fields. Where they may not, the reader reports a record that
/// differs from the first as an error.
#[verifier::external_body]
pub(crate) fn builder_flexible(b: &mut csv::ReaderBuilder, yes: bool)
    ensures
        settings_of(*final(b)) == (ReaderSettings { flexible: yes, ..settings_of(*old(b)) }),
{
    b.flexible(yes);
}

/// `ReaderBuilder::delimiter`: sets the byte between fields.
#[verifier::external_body]
pub(crate) fn builder_delimiter(b: &mut csv::ReaderBuilder, delimiter: u8)
    ensures
        settings_of(*final(b)) == (ReaderSettings { delimiter, ..settings_of(*old(b)) }),
{
    b.delimiter(delimiter);
}

/// `ReaderBuilder::quote`: sets the quoting byte.
#[verifier::external_body]
pub(crate) fn builder_quote(b: &mut csv::ReaderBuilder, quote: u8)
    ensures
        settings_of(*final(b)) == (ReaderSettings { quote, ..settings_of(*old(b)) }),
{
    b.quote(quote);
}

/// `ReaderBuilder::escape`: sets the escape byte, or none.
#[verifier::external_body]
pub(crate) fn builder_escape(b: &mut csv::ReaderBuilder, escape: Option<u8>)
    ensures
        settings_of(*final(b)) == (ReaderSettings { escape, ..settings_of(*old(b)) }),
{
    b.escape(escape);
}

/// `ReaderBuilder::from_reader` and `Reader::records` over bytes in memory:
/// every record of the input in order, each with its fields or with the error
/// that the reader reports for it. The outcome depends on the settings and
/// the bytes alone.
#[verifier::external_body]
pub(crate) fn read_rows(b: &csv::ReaderBuilder, input: &[u8]) -> (rows: Vec<
    Result<Vec<String>, csv::Error>,
>)
    ensures
        read_texts(rows@) == csv_rows(settings_of(*b), input@),
{
    let mut rows = Vec::new();
    for record in b.from_reader(input).records() {
        rows.push(record.map(|fields| fields.iter().map(String::from).collect()));
    }
    rows
}

/// `ReaderBuilder::from_reader` and the first item of `Reader::deserialize`
/// into a map of strings: `None` where the input holds no record to read,
/// else whether the record was read well.
#[verifier::external_body]
pub(crate) fn first_row_ok(b: &csv::ReaderBuilder, input: &[u8]) -> (r: Option<bool>)
    ensures
        r == csv_first_row(settings_of(*b), input@),
{
    let mut reader = b.from_reader(input);
    let row: Option<Result<HashMap<String, String>, csv::Error>> = reader.deserialize().next();
    row.map(|r| r.is_ok())
}

/// The message of a `csv::Error`, as its `Display` writes it.
#[verifier::external_body]
pub(crate) fn csv_error_text(e: &csv::Error) -> (text: String) {
    e.to_string()
}

/// `WriterBuilder::new`: a builder with the defaults of the crate: a comma
/// between fields and the double quote for quoting.
#[verifier::external_body]
pub(crate) fn wbuilder_new() -> (b: csv::WriterBuilder)
    ensures
        writer_settings_of(b) == (WriterSettings { delimiter: 44, quote: 34 }),
{
    csv::WriterBuilder::new()
}

/// `WriterBuilder::delimiter`: sets the byte between fields.
#[verifier::external_body]
pub(crate) fn wbuilder_delimiter(b: &mut csv::WriterBuilder, delimiter: u8)
    ensures
        writer_settings_of(*final(b)) == (WriterSettings {
            delimiter,
            ..writer_settings_of(*old(b))
        }),
{
    b.delimiter(delimiter);
}

/// `WriterBuilder::quote`: sets the quoting byte.
#[verifier::external_body]
pub(crate) fn wbuilder_quote(b: &mut csv::WriterBuilder, quote: u8)
    ensures
        writer_settings_of(*final(b)) == (WriterSettings { quote, ..writer_settings_of(*old(b)) }),
{
    b.quote(quote);
}

/// `WriterBuilder::from_writer` over an empty vector: a writer with the
/// settings of the builder that has taken no row.
#[verifier::external_body]
pub(crate) fn writer_new(b: &csv::WriterBuilder) -> (w: TableWriter)
    ensures
        written_rows(w) == Seq::<Seq<Seq<char>>>::empty(),
        made_with(w) == writer_settings_of(*b),
{
    TableWriter { inner: b.from_writer(Vec::new()) }
}

/// `Writer::serialize` of a row of strings: the writer takes the row after
/// those it had. It refuses a row for its length alone: once it has taken a
/// row, every further row has to be as long as the first. A writer that
/// refused a row is not handed back.
#[verifier::external_body]
pub(crate) fn writer_row(w: TableWriter, row: &Vec<String>) -> (r: Result<TableWriter, csv::Error>)
    ensures
        r is Ok <==> written_rows(w).len() == 0 || row@.len() == written_rows(w)[0].len(),
        r matches Ok(next) ==> written_rows(next) == written_rows(w).push(texts(row@))
            && made_with(next) == made_with(w),
{
    let mut writer = w;
    writer.inner.serialize(row)?;
    Ok(writer)
}

/// `Writer::into_inner`: flushes the writer and hands out its bytes, which
/// depend on its settings and the rows it has taken, and on nothing else.
/// The flush goes to a vector, which takes every byte.
#[verifier::external_body]
pub(crate) fn writer_finish(w: TableWriter) -> (r: Result<Vec<u8>, String>)
    ensures
        r is Ok,
        r.unwrap()@ == csv_text(made_with(w), written_rows(w)),
{
    w.inner.into_inner().map_err(|e| e.to_string())
}

} // verus!
