//! How decoding an input and encoding records can fail.

use crate::text::{decimal, decimal_digits};
use vstd::prelude::*;
use vstd::string::StringExecFns;

verus! {

/// Why a decode failed, without the text of the failure.
pub enum DecodeFault {
    /// The input holds no header row.
    EmptyInput,
    /// The record at this position in the input could not be read.
    Malformed { record: nat },
    /// The data row with this index, counted from 0 after the header, has
    /// `found` fields under a header of `expected`.
    RowLength { row: nat, expected: nat, found: nat },
    /// The input is not UTF-8 text.
    NotText,
    /// The input is not a document of the format.
    Syntax,
}

/// A failure to decode an input. Where the parser of a format reported it,
/// the failure carries the words of the parser.
#[derive(Debug)]
pub enum DecodeError {
    EmptyInput,
    Malformed { record: usize, message: String },
    RowLength { row: usize, expected: usize, found: usize },
    NotText,
    Syntax { message: String },
}

impl DecodeError {
    /// Why the decode failed.
    pub open spec fn fault(&self) -> DecodeFault {
        match self {
            DecodeError::EmptyInput => DecodeFault::EmptyInput,
            DecodeError::Malformed { record, .. } => DecodeFault::Malformed {
                record: *record as nat,
            },
            DecodeError::RowLength { row, expected, found } => DecodeFault::RowLength {
                row: *row as nat,
                expected: *expected as nat,
                found: *found as nat,
            },
            DecodeError::NotText => DecodeFault::NotText,
            DecodeError::Syntax { .. } => DecodeFault::Syntax,
        }
    }

    /// The words of this failure.
    pub open spec fn spec_describe(&self) -> Seq<char> {
        match self {
            DecodeError::EmptyInput => "Header row is empty"@,
            DecodeError::Malformed { message, .. } => message@,
            DecodeError::RowLength { row, expected, found } => "Row "@ + decimal_digits(
                *row as nat,
            ) + " has different number of records than the header: "@ + decimal_digits(
                *found as nat,
            ) + " instead of "@ + decimal_digits(*expected as nat),
            DecodeError::NotText => "stream did not contain valid UTF-8"@,
            DecodeError::Syntax { message } => message@,
        }
    }

    /// Words this failure for the operator. A row of the wrong length is
    /// named by its index.
    pub fn describe(&self) -> (text: String)
        ensures
            text@ == self.spec_describe(),
    {
        match self {
            DecodeError::EmptyInput => String::from_str("Header row is empty"),
            DecodeError::Malformed { message, .. } => message.clone(),
            DecodeError::RowLength { row, expected, found } => {
                let mut text = String::from_str("Row ");
                text.append(decimal(*row).as_str());
                text.append(" has different number of records than the header: ");
                text.append(decimal(*found).as_str());
                text.append(" instead of ");
                text.append(decimal(*expected).as_str());
                text
            },
            DecodeError::NotText => String::from_str("stream did not contain valid UTF-8"),
            DecodeError::Syntax { message } => message.clone(),
        }
    }
}

/// Why an encode failed, without the text of the failure.
pub enum EncodeFault {
    /// The record with this index is not an object.
    NotAnObject { index: nat },
    /// The record with this index has `found` fields where the first has `expected`.
    FieldCount { index: nat, expected: nat, found: nat },
    /// The record with this index lacks a field of the first record.
    MissingField { index: nat, field: Seq<char> },
    /// The value of this field of this record has no text.
    Unprintable { index: nat, field: Seq<char> },
    /// The serializer refused the data.
    Writer,
}

/// A failure to encode records. Where a serializer reported it, the failure
/// carries the words of the serializer.
#[derive(Debug)]
pub enum EncodeError {
    NotAnObject { index: usize },
    FieldCount { index: usize, expected: usize, found: usize },
    MissingField { index: usize, field: String },
    Unprintable { index: usize, field: String, message: String },
    Writer { message: String },
}

impl EncodeError {
    /// Why the encode failed.
    pub open spec fn fault(&self) -> EncodeFault {
        match self {
            EncodeError::NotAnObject { index } => EncodeFault::NotAnObject { index: *index as nat },
            EncodeError::FieldCount { index, expected, found } => EncodeFault::FieldCount {
                index: *index as nat,
                expected: *expected as nat,
                found: *found as nat,
            },
            EncodeError::MissingField { index, field } => EncodeFault::MissingField {
                index: *index as nat,
                field: field@,
            },
            EncodeError::Unprintable { index, field, .. } => EncodeFault::Unprintable {
                index: *index as nat,
                field: field@,
            },
            EncodeError::Writer { .. } => EncodeFault::Writer,
        }
    }

    /// The words of this failure.
    pub open spec fn spec_describe(&self) -> Seq<char> {
        match self {
            EncodeError::NotAnObject { index } =>
                "Data to write must be an object, received record "@ + decimal_digits(
                    *index as nat,
                ),
            EncodeError::FieldCount { index, expected, found } => "Record "@ + decimal_digits(
                *index as nat,
            ) + " has "@ + decimal_digits(*found as nat) + " fields where the first has "@
                + decimal_digits(*expected as nat),
            EncodeError::MissingField { index, field } => "Record "@ + decimal_digits(
                *index as nat,
            ) + " has no field "@ + field@,
            EncodeError::Unprintable { message, .. } => message@,
            EncodeError::Writer { message } => message@,
        }
    }

    /// Words this failure for the operator. A record that makes no row is
    /// named by its index.
    pub fn describe(&self) -> (text: String)
        ensures
            text@ == self.spec_describe(),
    {
        match self {
            EncodeError::NotAnObject { index } => {
                let mut text = String::from_str(
                    "Data to write must be an object, received record ",
                );
                text.append(decimal(*index).as_str());
                text
            },
            EncodeError::FieldCount { index, expected, found } => {
                let mut text = String::from_str("Record ");
                text.append(decimal(*index).as_str());
                text.append(" has ");
                text.append(decimal(*found).as_str());
                text.append(" fields where the first has ");
                text.append(decimal(*expected).as_str());
                text
            },
            EncodeError::MissingField { index, field } => {
                let mut text = String::from_str("Record ");
                text.append(decimal(*index).as_str());
                text.append(" has no field ");
                text.append(field.as_str());
                text
            },
            EncodeError::Unprintable { message, .. } => message.clone(),
            EncodeError::Writer { message } => message.clone(),
        }
    }
}

} // verus!
