//! The tabular format: comma-separated rows under a header row.

use crate::errors::EachError;
use crate::formats::error::{DecodeError, DecodeFault, EncodeError, EncodeFault};
use crate::formats::rows::{
    builder_delimiter, builder_escape, builder_flexible, builder_has_headers, builder_new,
    builder_quote, csv_error_text, csv_first_row, csv_rows, csv_text, first_row_ok, made_with,
    read_rows, settings_of, table_texts, wbuilder_delimiter, wbuilder_new, wbuilder_quote,
    writer_finish, writer_new, writer_row,
    writer_settings_of, written_rows, ReaderSettings, WriterSettings,
};
use crate::formats::table::{decode_rows, decoded, lemma_table_is_rectangular, rows_for, table_of};
use crate::text::{char_debug, debug_char, option_text, texts};
use crate::value::{items_of, tree_of, value_from_vec, Tree};
use vstd::prelude::*;
use vstd::string::StringExecFns;

verus! {

/// The id of the tabular format.
pub const ID: &'static str = "csv";

/// The tabular format and its three optional characters.
#[derive(Clone, Copy, Debug)]
pub struct Csv {
    pub delimiter: Option<u8>,
    pub quote: Option<u8>,
    pub escape: Option<u8>,
}

impl Default for Csv {
    /// The format with no character set: the reader goes by its defaults.
    fn default() -> (c: Csv)
        ensures
            c.delimiter is None,
            c.quote is None,
            c.escape is None,
    {
        Csv { delimiter: None, quote: None, escape: None }
    }
}

/// The byte that a piece of text stands for as a format character: its first
/// character, where that is a single byte.
pub open spec fn first_byte(s: Seq<char>) -> Option<u8> {
    if s.len() > 0 && (s[0] as u32) < 128 {
        Some(s[0] as u8)
    } else {
        None
    }
}

/// The words for a text that stands for no format character.
pub open spec fn byte_error(s: Seq<char>) -> Seq<char> {
    if s.len() == 0 {
        "Invalid char, need at least one character"@
    } else {
        "Invalid char, first character must be single byte: "@ + char_debug(s[0])
    }
}

/// Reads a format character from the text of an option.
///
/// Text without a character, and text whose first character takes more than
/// one byte, are usage errors.
pub fn str_to_u8(s: &str) -> (r: Result<u8, EachError>)
    ensures
        match r {
            Ok(b) => first_byte(s@) == Some(b),
            Err(e) => first_byte(s@) is None && e is Usage && e.spec_message() == byte_error(s@),
        },
{
    if s.is_empty() {
        return Err(
            EachError::Usage {
                message: String::from_str("Invalid char, need at least one character"),
            },
        );
    }
    let first = s.get_char(0);
    if (first as u32) < 128 {
        Ok(first as u8)
    } else {
        let mut message = String::from_str("Invalid char, first character must be single byte: ");
        message.append(debug_char(first).as_str());
        Err(EachError::Usage { message })
    }
}

/// The format character that an option sets: none where the option is
/// absent, an error where its text stands for no byte.
pub open spec fn option_byte(text: Option<Seq<char>>) -> Result<Option<u8>, ()> {
    match text {
        None => Ok(None),
        Some(s) => match first_byte(s) {
            Some(b) => Ok(Some(b)),
            None => Err(()),
        },
    }
}

/// The text of the first of three options that stands for no byte.
pub open spec fn first_bad_option(
    delimiter: Option<Seq<char>>,
    quote: Option<Seq<char>>,
    escape: Option<Seq<char>>,
) -> Option<Seq<char>> {
    if option_byte(delimiter) is Err {
        delimiter
    } else if option_byte(quote) is Err {
        quote
    } else if option_byte(escape) is Err {
        escape
    } else {
        None
    }
}

fn read_option(text: Option<&str>) -> (r: Result<Option<u8>, EachError>)
    ensures
        match r {
            Ok(b) => option_byte(option_text(text)) == Ok::<Option<u8>, ()>(b),
            Err(e) => option_byte(option_text(text)) is Err && e is Usage && e.spec_message()
                == byte_error(text.unwrap()@),
        },
{
    match text {
        None => Ok(None),
        Some(s) => match str_to_u8(s) {
            Ok(b) => Ok(Some(b)),
            Err(e) => Err(e),
        },
    }
}

/// What a look at the first record under a header says of an input: it is
/// tabular where there is such a record and it reads well.
pub open spec fn looks_tabular(first_row: Option<bool>) -> bool {
    first_row == Some(true)
}

/// Judges an input by the look at its first record under a header: an input
/// without one, and one whose first record does not read well, is not tabular.
pub fn says_tabular(first_row: Option<bool>) -> (tabular: bool)
    ensures
        tabular == looks_tabular(first_row),
{
    match first_row {
        Some(ok) => ok,
        None => false,
    }
}

impl Csv {
    /// The settings of the reader of this format: no row is set apart as a
    /// header, and each character that is not set is the default of the
    /// reader.
    pub open spec fn settings(&self) -> ReaderSettings {
        ReaderSettings {
            has_headers: false,
            flexible: false,
            delimiter: match self.delimiter {
                Some(d) => d,
                None => 44,
            },
            quote: match self.quote {
                Some(q) => q,
                None => 34,
            },
            escape: self.escape,
        }
    }

    /// The settings under which an input is decoded: the reader hands out
    /// rows of any length, and the decode judges them.
    pub open spec fn decode_settings(&self) -> ReaderSettings {
        ReaderSettings { flexible: true, ..self.settings() }
    }

    /// The settings under which records are written: the delimiter and the
    /// quote of this format. A quote inside a field is written twice, as the
    /// reader of this format takes it with or without an escape.
    pub open spec fn write_settings(&self) -> WriterSettings {
        WriterSettings { delimiter: self.settings().delimiter, quote: self.settings().quote }
    }

    /// The bytes that records encode to: those of their table, written with
    /// the characters of this format.
    pub open spec fn encoded(&self, items: Seq<Tree>) -> Result<Seq<u8>, EncodeFault> {
        match table_of(items) {
            Err(fault) => Err(fault),
            Ok(rows) => Ok(csv_text(self.write_settings(), rows)),
        }
    }

    /// Whether a prefix of an input looks tabular: read with a header row, it
    /// holds a first record that reads well.
    pub open spec fn accepts(&self, header: Seq<u8>) -> bool {
        looks_tabular(
            csv_first_row(ReaderSettings { has_headers: true, ..self.settings() }, header),
        )
    }

    /// Takes the three characters from the texts of their options, in the
    /// order delimiter, quote, escape. The first text that stands for no byte
    /// is a usage error; the characters before it are set by then, the others
    /// are as they were.
    pub fn set_arguments(
        &mut self,
        delimiter: Option<&str>,
        quote: Option<&str>,
        escape: Option<&str>,
    ) -> (r: Result<(), EachError>)
        ensures
            match option_byte(option_text(delimiter)) {
                Err(_) => r is Err && *final(self) == *old(self),
                Ok(d) => match option_byte(option_text(quote)) {
                    Err(_) => r is Err && *final(self) == (Csv { delimiter: d, ..*old(self) }),
                    Ok(q) => match option_byte(option_text(escape)) {
                        Err(_) => r is Err && *final(self) == (Csv {
                            delimiter: d,
                            quote: q,
                            escape: old(self).escape,
                        }),
                        Ok(e) => r is Ok && *final(self) == (Csv {
                            delimiter: d,
                            quote: q,
                            escape: e,
                        }),
                    },
                },
            },
            match first_bad_option(
                option_text(delimiter),
                option_text(quote),
                option_text(escape),
            ) {
                Some(text) => r matches Err(e) && e is Usage && e.spec_message() == byte_error(
                    text,
                ),
                None => r is Ok,
            },
    {
        match read_option(delimiter) {
            Ok(d) => {
                self.delimiter = d;
            },
            Err(e) => {
                return Err(e);
            },
        }
        match read_option(quote) {
            Ok(q) => {
                self.quote = q;
            },
            Err(e) => {
                return Err(e);
            },
        }
        match read_option(escape) {
            Ok(c) => {
                self.escape = c;
            },
            Err(e) => {
                return Err(e);
            },
        }
        Ok(())
    }

    /// The file name extensions of tabular inputs.
    pub open spec fn extensions() -> Seq<Seq<char>> {
        seq!["csv"@]
    }

    /// Lists the file name extensions of tabular inputs.
    pub fn get_extensions(&self) -> (exts: Vec<&'static str>)
        ensures
            exts@.map_values(|e: &'static str| e@) == Self::extensions(),
    {
        let exts = vec!["csv"];
        assert(exts@.map_values(|e: &'static str| e@) =~= Self::extensions());
        exts
    }

    /// A reader builder with the settings of this format.
    pub fn reader_builder(&self) -> (b: csv::ReaderBuilder)
        ensures
            settings_of(b) == self.settings(),
    {
        let mut builder = builder_new();
        // The header row is read like any other, so that the order of its
        // columns is the order of the fields.
        builder_has_headers(&mut builder, false);
        if let Some(delimiter) = self.delimiter {
            builder_delimiter(&mut builder, delimiter);
        }
        if let Some(quote) = self.quote {
            builder_quote(&mut builder, quote);
        }
        builder_escape(&mut builder, self.escape);
        builder
    }

    /// A writer builder with the delimiter and the quote of this format.
    pub fn writer_builder(&self) -> (b: csv::WriterBuilder)
        ensures
            writer_settings_of(b) == self.write_settings(),
    {
        let mut builder = wbuilder_new();
        if let Some(delimiter) = self.delimiter {
            wbuilder_delimiter(&mut builder, delimiter);
        }
        if let Some(quote) = self.quote {
            wbuilder_quote(&mut builder, quote);
        }
        builder
    }

    /// Says whether a prefix of an input looks tabular. Bytes that are no
    /// table are answered with `false`, never with an error.
    pub fn is_valid_header(&self, header: &[u8]) -> (r: Result<bool, EachError>)
        ensures
            r is Ok,
            r.unwrap() == self.accepts(header@),
    {
        let mut builder = self.reader_builder();
        // Here the reader takes the header row itself: the check needs no order.
        builder_has_headers(&mut builder, true);
        Ok(says_tabular(first_row_ok(&builder, header)))
    }

    /// Decodes a tabular input into a list of records.
    pub fn parse(&self, input: &[u8]) -> (r: Result<serde_json::Value, DecodeError>)
        ensures
            match r {
                Ok(v) => decoded(csv_rows(self.decode_settings(), input@)) matches Ok(records)
                    && tree_of(v) == Tree::List(records),
                Err(e) => decoded(csv_rows(self.decode_settings(), input@)) == Err::<
                    Seq<Tree>,
                    DecodeFault,
                >(e.fault()),
            },
    {
        let mut builder = self.reader_builder();
        // A row of another length is for the decode to name, not for the reader.
        builder_flexible(&mut builder, true);
        let rows = read_rows(&builder, input);
        match decode_rows(&rows) {
            Ok(records) => Ok(value_from_vec(records)),
            Err(e) => Err(e),
        }
    }

    /// Encodes records as a table, with the characters of this format.
    ///
    /// Records that make no table fail the encode as `rows_for` says. The
    /// rows of every table go to the writer one by one, and what it makes of
    /// them comes back.
    pub fn write(&self, values: &Vec<serde_json::Value>) -> (r: Result<Vec<u8>, EncodeError>)
        ensures
            match self.encoded(items_of(values@)) {
                Err(fault) => r matches Err(e) && e.fault() == fault,
                Ok(bytes) => r matches Ok(written) && written@ == bytes,
            },
    {
        let rows = match rows_for(values) {
            Ok(rows) => rows,
            Err(e) => {
                return Err(e);
            },
        };
        proof {
            lemma_table_is_rectangular(items_of(values@));
        }
        let builder = self.writer_builder();
        let mut writer = writer_new(&builder);
        let mut i: usize = 0;
        while i < rows.len()
            invariant
                i <= rows@.len(),
                forall|j: int|
                    0 <= j < rows@.len() ==> (#[trigger] table_texts(rows@)[j]).len()
                        == table_texts(rows@)[0].len(),
                written_rows(writer) == table_texts(rows@).subrange(0, i as int),
                made_with(writer) == self.write_settings(),
            decreases rows@.len() - i,
        {
            let ghost before = written_rows(writer);
            proof {
                assert(table_texts(rows@)[i as int] == texts(rows@[i as int]@));
                assert(texts(rows@[i as int]@).len() == rows@[i as int]@.len());
                if i > 0 {
                    assert(before[0] == table_texts(rows@)[0]);
                }
            }
            writer = match writer_row(writer, &rows[i]) {
                Ok(next) => next,
                Err(e) => {
                    return Err(EncodeError::Writer { message: csv_error_text(&e) });
                },
            };
            proof {
                assert(before.push(texts(rows@[i as int]@)) =~= table_texts(rows@).subrange(
                    0,
                    i + 1,
                ));
            }
            i = i + 1;
        }
        proof {
            assert(table_texts(rows@).subrange(0, rows@.len() as int) =~= table_texts(rows@));
        }
        match writer_finish(writer) {
            Ok(bytes) => Ok(bytes),
            Err(message) => Err(EncodeError::Writer { message }),
        }
    }
}

} // verus!
