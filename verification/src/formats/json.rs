//! The tree format: one JSON document.

use crate::errors::EachError;
use crate::formats::error::{DecodeError, DecodeFault, EncodeError, EncodeFault};
use crate::text::utf8_text;
use crate::value::{
    error_text, items_of, json_parsed, json_pretty, parse_text, to_pretty, tree_of, Tree,
};
use vstd::prelude::*;
use vstd::string::StrSliceExecFns;

verus! {

/// The id of the tree format.
pub const ID: &'static str = "json";

/// The tree format. It has no options.
pub struct Json {}

/// What an input decodes to as a JSON document.
pub open spec fn decoded(input: Seq<u8>) -> Result<Tree, DecodeFault> {
    if !vstd::utf8::valid_utf8(input) {
        Err(DecodeFault::NotText)
    } else {
        match json_parsed(vstd::utf8::decode_utf8(input)) {
            Some(tree) => Ok(tree),
            None => Err(DecodeFault::Syntax),
        }
    }
}

/// The bytes that records encode to as one indented JSON array.
pub open spec fn encoded(items: Seq<Tree>) -> Result<Seq<u8>, EncodeFault> {
    match json_pretty(items) {
        Some(text) => Ok(vstd::utf8::encode_utf8(text)),
        None => Err(EncodeFault::Writer),
    }
}

impl Json {
    /// The file name extensions of JSON inputs.
    pub open spec fn extensions() -> Seq<Seq<char>> {
        seq!["json"@]
    }

    /// Whether a prefix of an input looks like JSON: it opens an array or an object.
    pub open spec fn accepts(header: Seq<u8>) -> bool {
        header.len() > 0 && (header[0] == 91 || header[0] == 123)
    }

    /// This format has no options to take.
    pub fn set_arguments(&mut self) -> (r: Result<(), EachError>)
        ensures
            r is Ok,
            *final(self) == *old(self),
    {
        Ok(())
    }

    /// Lists the file name extensions of JSON inputs.
    pub fn get_extensions(&self) -> (exts: Vec<&'static str>)
        ensures
            exts@.map_values(|e: &'static str| e@) == Self::extensions(),
    {
        let exts = vec!["json"];
        assert(exts@.map_values(|e: &'static str| e@) =~= Self::extensions());
        exts
    }

    /// Says whether a prefix of an input looks like JSON. An empty prefix does not.
    pub fn is_valid_header(&self, header: &[u8]) -> (r: Result<bool, EachError>)
        ensures
            r is Ok,
            r.unwrap() == Self::accepts(header@),
    {
        Ok(header.len() > 0 && (header[0] == 91u8 || header[0] == 123u8))
    }

    /// Decodes a JSON document.
    pub fn parse(&self, input: &[u8]) -> (r: Result<serde_json::Value, DecodeError>)
        ensures
            match r {
                Ok(v) => decoded(input@) == Ok::<Tree, DecodeFault>(tree_of(v)),
                Err(e) => decoded(input@) == Err::<Tree, DecodeFault>(e.fault()),
            },
    {
        let text = match utf8_text(input) {
            Some(text) => text,
            None => {
                return Err(DecodeError::NotText);
            },
        };
        match parse_text(text) {
            Ok(v) => Ok(v),
            Err(e) => Err(DecodeError::Syntax { message: error_text(&e) }),
        }
    }

    /// Encodes records as one indented JSON array.
    pub fn write(&self, values: &Vec<serde_json::Value>) -> (r: Result<Vec<u8>, EncodeError>)
        ensures
            match encoded(items_of(values@)) {
                Ok(bytes) => r matches Ok(written) && written@ == bytes,
                Err(fault) => r matches Err(e) && e.fault() == fault,
            },
    {
        match to_pretty(values) {
            Ok(text) => Ok(text.as_str().as_bytes_vec()),
            Err(e) => Err(EncodeError::Writer { message: error_text(&e) }),
        }
    }
}

} // verus!
