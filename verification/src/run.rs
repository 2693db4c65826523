//! The decisions of a run, from the options to the result.
//!
//! Reading inputs, asking the operator and running processes is the caller's
//! work. Each function here takes what the caller has read or been told and
//! says what follows from it.

use crate::action::{Action, ActionModel};
use crate::errors::EachError;
use crate::formats::csv::{byte_error, first_bad_option, Csv};
use crate::formats::error::{DecodeError, EncodeError};
use crate::formats::{
    chosen, entries_of, find_format, first_by_content, first_by_extension, match_content,
    match_extension, registered, registry_insert, with_entry, Format, Registry, DEFAULT_FORMAT,
};
use crate::query::{apply_query, queried, Query};
use crate::text::{
    extension_of, lemma_starts_with, lowercase, lowercase_of, option_text, parse_count,
    parsed_count, path_extension, starts_with, text_of, texts, CountFault,
};
use crate::value::{as_array, items_of, tree_of, value_clone, Tree};
use vstd::prelude::*;
use vstd::string::StringExecFns;

verus! {

/// The number of processes that run at a time where the option is absent.
pub const DEFAULT_MAX_PROCS: usize = 1;

/// The limit on processes that the text of the option stands for.
pub open spec fn spec_max_procs(text: Option<Seq<char>>) -> Result<usize, CountFault> {
    match text {
        None => Ok(DEFAULT_MAX_PROCS),
        Some(t) => parsed_count(t),
    }
}

/// Reads the limit on processes that run at a time. Without the option the
/// limit is one; a text that is no count is a usage error that quotes it and
/// says why.
pub fn max_procs(text: Option<&str>) -> (r: Result<usize, EachError>)
    ensures
        match spec_max_procs(option_text(text)) {
            Ok(n) => r matches Ok(limit) && limit == n,
            Err(fault) => r matches Err(e) && e is Usage && e.spec_message()
                == "Invalid max-procs: "@ + text.unwrap()@ + " ("@ + fault.spec_describe() + ")"@,
        },
{
    match text {
        None => Ok(DEFAULT_MAX_PROCS),
        Some(t) => match parse_count(t) {
            Ok(n) => Ok(n),
            Err(fault) => {
                let mut message = String::from_str("Invalid max-procs: ");
                message.append(t);
                message.append(" (");
                message.append(fault.describe());
                message.append(")");
                Err(EachError::Usage { message })
            },
        },
    }
}

/// Where the records of a run come from.
pub enum Input {
    /// A named file, with the extension of its name in lower case.
    File { path: String, ext: Option<String> },
    /// The standard input.
    Stdin,
}

/// The extension by which an input is matched to a format.
pub open spec fn hint_of(path: Seq<char>) -> Option<Seq<char>> {
    match extension_of(path) {
        Some(ext) => Some(lowercase_of(ext)),
        None => None,
    }
}

/// Whether `input` is the file at `path`.
pub open spec fn is_file(input: Input, path: Seq<char>) -> bool {
    input matches Input::File { path: p, ext } && p@ == path && text_of(ext) == hint_of(path)
}

/// Lists the inputs of a run: the named files in their order, or the
/// standard input where none is named. A standard input that is a terminal
/// has nothing to read: that is a usage error.
pub fn plan_inputs(paths: &Vec<String>, stdin_is_terminal: bool) -> (r: Result<
    Vec<Input>,
    EachError,
>)
    ensures
        match r {
            Ok(inputs) => if paths@.len() > 0 {
                &&& inputs@.len() == paths@.len()
                &&& forall|i: int|
                    0 <= i < inputs@.len() ==> is_file(#[trigger] inputs@[i], paths@[i]@)
            } else {
                !stdin_is_terminal && inputs@.len() == 1 && inputs@[0] is Stdin
            },
            Err(e) => paths@.len() == 0 && stdin_is_terminal && e is Usage && e.spec_message()
                == "No input provided"@,
        },
{
    let mut inputs: Vec<Input> = Vec::new();
    if paths.len() == 0 {
        if stdin_is_terminal {
            return Err(EachError::Usage { message: String::from_str("No input provided") });
        }
        inputs.push(Input::Stdin);
        return Ok(inputs);
    }
    let mut i: usize = 0;
    while i < paths.len()
        invariant
            i <= paths@.len(),
            inputs@.len() == i,
            forall|j: int| 0 <= j < i ==> is_file(#[trigger] inputs@[j], paths@[j]@),
        decreases paths@.len() - i,
    {
        let ext = match path_extension(paths[i].as_str()) {
            Some(ext) => Some(lowercase(ext.as_str())),
            None => None,
        };
        inputs.push(Input::File { path: paths[i].clone(), ext });
        i = i + 1;
    }
    Ok(inputs)
}

/// Where the template for the standard input of the processes comes from.
pub enum StdinSource {
    /// The template is this text.
    Inline(String),
    /// The template is the content of the file at this path.
    File(String),
    /// The processes get no standard input.
    Absent,
}

/// Picks the source of the standard input template: the text given with
/// the options where there is one, else the file named there.
pub fn stdin_source(inline: Option<String>, file: Option<String>) -> (source: StdinSource)
    ensures
        match inline {
            Some(text) => source == StdinSource::Inline(text),
            None => match file {
                Some(path) => source == StdinSource::File(path),
                None => source is Absent,
            },
        },
{
    match inline {
        Some(text) => StdinSource::Inline(text),
        None => match file {
            Some(path) => StdinSource::File(path),
            None => StdinSource::Absent,
        },
    }
}

/// Builds the action of a run from the command words: the first is the
/// program, the others are its arguments. No words make no action: the run
/// then writes the records out.
///
/// The operator is asked before each run where either flag is set. A
/// template that does not compile is a usage error that names its slot.
pub fn build_action(
    command: Vec<String>,
    stdin: Option<String>,
    prompt: bool,
    prompt_stdin: bool,
) -> (r: Result<Option<Action>, EachError>)
    ensures
        command@.len() == 0 ==> r matches Ok(None),
        command@.len() > 0 ==> match crate::action::bad_slot(
            text_of(stdin),
            texts(command@.skip(1)),
        ) {
            Some(slot) => r matches Err(e) && e is Usage && starts_with(
                e.spec_message(),
                "Invalid template in "@ + slot.spec_describe() + ": "@,
            ),
            None => r matches Ok(Some(action)) && action@ == (ActionModel {
                command: command@[0]@,
                args: texts(command@.skip(1)),
                stdin: text_of(stdin),
                prompt: prompt_stdin || prompt,
                prompt_stdin,
            }),
        },
{
    let mut words = command;
    if words.len() == 0 {
        return Ok(None);
    }
    let program = words.remove(0);
    proof {
        assert(words@ =~= command@.skip(1));
    }
    match Action::new(program, stdin, words, prompt_stdin || prompt, prompt_stdin) {
        Ok(action) => Ok(Some(action)),
        Err(failure) => {
            let mut message = String::from_str("Invalid template in ");
            message.append(failure.slot.describe().as_str());
            message.append(": ");
            proof {
                lemma_starts_with(message@, failure.message@);
            }
            message.append(failure.message.as_str());
            Err(EachError::Usage { message })
        },
    }
}

/// The tabular format with the characters that three options set, or
/// `None` where the text of one stands for no byte.
pub open spec fn configured(
    delimiter: Option<Seq<char>>,
    quote: Option<Seq<char>>,
    escape: Option<Seq<char>>,
) -> Option<Csv> {
    match (
        crate::formats::csv::option_byte(delimiter),
        crate::formats::csv::option_byte(quote),
        crate::formats::csv::option_byte(escape),
    ) {
        (Ok(d), Ok(q), Ok(e)) => Some(Csv { delimiter: d, quote: q, escape: e }),
        _ => None,
    }
}

/// Hands the options of the formats to the registry, before its first use.
///
/// The tabular format takes its three characters; it keeps its place in the
/// order. An option whose text stands for no byte is a usage error, and the
/// registry stays as it was. A registry without the tabular format stays as
/// it is.
pub fn configure_formats(
    formats: &mut Registry,
    delimiter: Option<&str>,
    quote: Option<&str>,
    escape: Option<&str>,
) -> (r: Result<(), EachError>)
    ensures
        match registered(entries_of(*old(formats)), "csv"@) {
            Some(Format::Csv(_)) => match configured(
                option_text(delimiter),
                option_text(quote),
                option_text(escape),
            ) {
                Some(csv) => r is Ok && entries_of(*final(formats)) == with_entry(
                    entries_of(*old(formats)),
                    "csv"@,
                    Format::Csv(csv),
                ),
                None => r matches Err(e) && e is Usage && entries_of(*final(formats))
                    == entries_of(*old(formats)) && e.spec_message()
                    == "Invalid argument for format csv: "@ + byte_error(
                    first_bad_option(
                        option_text(delimiter),
                        option_text(quote),
                        option_text(escape),
                    ).unwrap(),
                ),
            },
            _ => r is Ok && entries_of(*final(formats)) == entries_of(*old(formats)),
        },
{
    let mut csv: Csv = match find_format(formats, crate::formats::csv::ID) {
        Some(Format::Csv(csv)) => *csv,
        _ => {
            return Ok(());
        },
    };
    match csv.set_arguments(delimiter, quote, escape) {
        Ok(()) => {
            registry_insert(formats, crate::formats::csv::ID, Format::Csv(csv));
            Ok(())
        },
        Err(e) => {
            let mut message = String::from_str("Invalid argument for format csv: ");
            message.append(e.message().as_str());
            Err(EachError::Usage { message })
        },
    }
}

/// How far the format of an input is settled before any of it is read.
pub enum Resolution<'a> {
    /// The input is read as this format.
    Found(&'a Format),
    /// The first bytes of the input have to tell.
    Sniff,
}

/// Settles the format of an input as far as its name and the options do.
///
/// A format that the options ask for is looked up by its id, and an id that
/// is not registered is a usage error: no input is read for it. With no
/// format asked for, the first registered format that lists the extension
/// is taken. Else the first bytes of the input have to tell.
pub fn begin_resolve<'a>(
    explicit: Option<&str>,
    ext: &Option<String>,
    formats: &'a Registry,
) -> (r: Result<Resolution<'a>, EachError>)
    ensures
        match option_text(explicit) {
            Some(id) => match registered(entries_of(*formats), id) {
                Some(format) => r matches Ok(Resolution::Found(found)) && *found == format,
                None => r matches Err(e) && e is Usage && e.spec_message() == "Unknown format: "@
                    + id,
            },
            None => match text_of(*ext) {
                Some(hint) => match first_by_extension(entries_of(*formats), hint, 0) {
                    Some(i) => r matches Ok(Resolution::Found(found)) && chosen(
                        entries_of(*formats),
                        Some(i),
                        Some(found),
                    ),
                    None => r matches Ok(Resolution::Sniff),
                },
                None => r matches Ok(Resolution::Sniff),
            },
        },
{
    match explicit {
        Some(id) => match find_format(formats, id) {
            Some(format) => Ok(Resolution::Found(format)),
            None => {
                let mut message = String::from_str("Unknown format: ");
                message.append(id);
                Err(EachError::Usage { message })
            },
        },
        None => match ext {
            Some(hint) => match match_extension(hint, formats) {
                Some(format) => Ok(Resolution::Found(format)),
                None => Ok(Resolution::Sniff),
            },
            None => Ok(Resolution::Sniff),
        },
    }
}

/// Settles the format of an input by its first bytes: the first registered
/// format that accepts them. That none does is a data error.
pub fn finish_resolve<'a>(header: &[u8], formats: &'a Registry) -> (r:
    Result<&'a Format, EachError>)
    ensures
        match first_by_content(entries_of(*formats), header@, 0) {
            Some(i) => r matches Ok(found) && chosen(entries_of(*formats), Some(i), Some(found)),
            None => r matches Err(e) && e is Data && e.spec_message()
                == "Unable to guess format for input"@,
        },
{
    match match_content(header, formats) {
        Some(format) => Ok(format),
        None => Err(
            EachError::Data { message: String::from_str("Unable to guess format for input") },
        ),
    }
}

/// Settles the format of an input by the bytes that its reader has
/// retained, and takes the reader back to the first of them, so that the
/// format reads the input from its start.
pub fn sniff_format<'a>(
    reader: &mut crate::readers::CachedReader,
    formats: &'a Registry,
) -> (r: Result<&'a Format, EachError>)
    ensures
        final(reader)@ == old(reader)@.rewound(),
        match first_by_content(entries_of(*formats), old(reader)@.cache, 0) {
            Some(i) => r matches Ok(found) && chosen(entries_of(*formats), Some(i), Some(found)),
            None => r matches Err(e) && e is Data && e.spec_message()
                == "Unable to guess format for input"@,
        },
{
    let header = reader.window();
    reader.rewind();
    finish_resolve(header.as_slice(), formats)
}

/// Picks the format that an input is read as.
///
/// A format that the options ask for is looked up by its id; an id that is
/// not registered is a usage error. Else the first registered format that
/// lists the extension of the input is taken, and where none does, the first
/// that accepts its first bytes. That none fits is a data error.
pub fn resolve<'a>(
    explicit: Option<&str>,
    ext: &Option<String>,
    header: &[u8],
    formats: &'a Registry,
) -> (r: Result<&'a Format, EachError>)
    ensures
        match option_text(explicit) {
            Some(id) => match registered(entries_of(*formats), id) {
                Some(format) => r matches Ok(found) && *found == format,
                None => r matches Err(e) && e is Usage && e.spec_message() == "Unknown format: "@
                    + id,
            },
            None => match crate::formats::guessed(entries_of(*formats), text_of(*ext), header@) {
                Some(i) => r matches Ok(found) && chosen(
                    entries_of(*formats),
                    Some(i),
                    Some(found),
                ),
                None => r matches Err(e) && e is Data && e.spec_message()
                    == "Unable to guess format for input"@,
            },
        },
{
    match begin_resolve(explicit, ext, formats) {
        Ok(Resolution::Found(format)) => Ok(format),
        Ok(Resolution::Sniff) => finish_resolve(header, formats),
        Err(e) => Err(e),
    }
}

/// The records that an input gives: it decodes in the format, the query,
/// where there is one, finds a value in what it decodes to, and the outcome
/// is a list. `None` where one of these fails.
pub open spec fn records_read(format: Format, input: Seq<u8>, query: Option<Seq<char>>) -> Option<
    Seq<Tree>,
> {
    match format.decoded(input) {
        Err(_) => None,
        Ok(tree) => {
            let found = match query {
                Some(q) => queried(q, tree),
                None => Some(tree),
            };
            match found {
                Some(Tree::List(items)) => Some(items),
                _ => None,
            }
        },
    }
}

/// The text of the query of an expression, where there is one.
pub open spec fn query_of(query: Option<&Query>) -> Option<Seq<char>> {
    match query {
        Some(q) => Some(q.text()),
        None => None,
    }
}

/// The words of an input that does not decode.
pub open spec fn spec_decode_message(e: DecodeError) -> Seq<char> {
    "failed to parse input: "@ + e.spec_describe()
}

/// Makes the data error of an input that does not decode.
pub fn decode_failed(e: &DecodeError) -> (r: EachError)
    ensures
        r is Data,
        r.spec_message() == spec_decode_message(*e),
        starts_with(r.spec_message(), "failed to parse input: "@),
{
    let mut message = String::from_str("failed to parse input: ");
    proof {
        lemma_starts_with(message@, e.spec_describe());
    }
    message.append(e.describe().as_str());
    EachError::Data { message }
}

/// The words of records that do not encode.
pub open spec fn spec_encode_message(e: EncodeError) -> Seq<char> {
    "serialize error: "@ + e.spec_describe()
}

/// Makes the data error of records that do not encode.
pub fn encode_failed(e: &EncodeError) -> (r: EachError)
    ensures
        r is Data,
        r.spec_message() == spec_encode_message(*e),
        starts_with(r.spec_message(), "serialize error: "@),
{
    let mut message = String::from_str("serialize error: ");
    proof {
        lemma_starts_with(message@, e.spec_describe());
    }
    message.append(e.describe().as_str());
    EachError::Data { message }
}

/// Takes the records out of a decoded input: the elements of a list. Any
/// other value is a data error.
pub fn records_of(value: &serde_json::Value) -> (r: Result<Vec<serde_json::Value>, EachError>)
    ensures
        match tree_of(*value) {
            Tree::List(items) => r matches Ok(records) && items_of(records@) == items,
            _ => r matches Err(e) && e is Data && e.spec_message()
                == "Input values are not an array"@,
        },
{
    let items = match as_array(value) {
        Some(items) => items,
        None => {
            return Err(
                EachError::Data { message: String::from_str("Input values are not an array") },
            );
        },
    };
    let mut records: Vec<serde_json::Value> = Vec::new();
    let mut i: usize = 0;
    while i < items.len()
        invariant
            i <= items@.len(),
            records@.len() == i,
            forall|j: int| 0 <= j < i ==> tree_of(#[trigger] records@[j]) == tree_of(items@[j]),
        decreases items@.len() - i,
    {
        records.push(value_clone(&items[i]));
        i = i + 1;
    }
    proof {
        assert(items_of(records@) =~= items_of(items@));
    }
    Ok(records)
}

/// Decodes one input into its records.
///
/// The input is decoded as a whole in its format. A query, where there is
/// one, is evaluated over what it decodes to. The outcome has to be a list:
/// its elements are the records, in their order. An input that does not
/// decode, a query that fails and an outcome that is no list are data errors.
pub fn read_records(
    format: &Format,
    input: &[u8],
    query: Option<&Query>,
) -> (r: Result<Vec<serde_json::Value>, EachError>)
    ensures
        match records_read(*format, input@, query_of(query)) {
            Some(items) => r matches Ok(records) && items_of(records@) == items,
            None => r matches Err(e) && e is Data,
        },
        format.decoded(input@) is Err ==> (r matches Err(e) && starts_with(
            e.spec_message(),
            "failed to parse input: "@,
        )),
{
    let decoded = match format.parse(input) {
        Ok(value) => value,
        Err(e) => {
            return Err(decode_failed(&e));
        },
    };
    match query {
        Some(expression) => match apply_query(expression, &decoded) {
            Ok(found) => records_of(&found),
            Err(e) => Err(e),
        },
        None => records_of(&decoded),
    }
}

/// Adds the records of one input to those of the inputs before it.
pub fn merge_records(all: &mut Vec<serde_json::Value>, records: Vec<serde_json::Value>)
    ensures
        final(all)@ == old(all)@ + records@,
{
    let mut records = records;
    all.append(&mut records);
}

/// Picks the format that the records are written in: the one that the
/// options ask for, else the default. An id that is not registered is a
/// usage error.
pub fn choose_output<'a>(
    explicit: Option<&str>,
    formats: &'a Registry,
) -> (r: Result<&'a Format, EachError>)
    ensures
        ({
            let id = match option_text(explicit) {
                Some(id) => id,
                None => DEFAULT_FORMAT@,
            };
            match registered(entries_of(*formats), id) {
                Some(format) => r matches Ok(found) && *found == format,
                None => r matches Err(e) && e is Usage && e.spec_message()
                    == "Unknown output format: "@ + id,
            }
        }),
{
    let id = match explicit {
        Some(id) => id,
        None => DEFAULT_FORMAT,
    };
    match find_format(formats, id) {
        Some(format) => Ok(format),
        None => {
            let mut message = String::from_str("Unknown output format: ");
            message.append(id);
            Err(EachError::Usage { message })
        },
    }
}

/// Encodes the records of a run in the output format. Records that the
/// format cannot hold are a data error.
pub fn encode_output(format: &Format, values: &Vec<serde_json::Value>) -> (r: Result<
    Vec<u8>,
    EachError,
>)
    ensures
        match format.encoded(items_of(values@)) {
            Ok(bytes) => r matches Ok(written) && written@ == bytes,
            Err(_) => r matches Err(e) && e is Data && starts_with(
                e.spec_message(),
                "serialize error: "@,
            ),
        },
{
    match format.write(values) {
        Ok(bytes) => Ok(bytes),
        Err(e) => Err(encode_failed(&e)),
    }
}

} // verus!
