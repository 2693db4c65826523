//! The formats an input can be read as, and the choice among them.

pub mod csv;
pub mod error;
pub mod json;
pub mod rows;
pub mod table;

use crate::errors::EachError;
use crate::formats::csv::Csv;
use crate::formats::error::{DecodeError, DecodeFault, EncodeError, EncodeFault};
use crate::formats::json::Json;
use crate::value::Tree;
use vstd::prelude::*;
use vstd::string::StringExecFns;

verus! {

#[verifier::external_type_specification]
#[verifier::external_body]
#[verifier::reject_recursive_types(K)]
#[verifier::reject_recursive_types(V)]
#[verifier::reject_recursive_types(S)]
pub struct ExIndexMap<K, V, S>(indexmap::IndexMap<K, V, S>);

/// The id of the format that records are written in where none is asked for.
pub const DEFAULT_FORMAT: &'static str = "json";

/// One of the formats that an input can be read as and records written in.
pub enum Format {
    Json(Json),
    Csv(Csv),
}

/// The formats of a run under their ids, in the order of their registration.
pub type Registry = indexmap::IndexMap<&'static str, Format>;

/// The ids and formats of a registry, in their order.
pub type Entries = Seq<(Seq<char>, Format)>;

/// The registered formats with their ids, in the order of their registration.
pub uninterp spec fn entries_of(m: indexmap::IndexMap<&'static str, Format>) -> Seq<
    (Seq<char>, Format),
>;

/// The format registered under `id`.
pub open spec fn registered(entries: Entries, id: Seq<char>) -> Option<Format>
    decreases entries.len(),
{
    if entries.len() == 0 {
        None
    } else if entries[0].0 == id {
        Some(entries[0].1)
    } else {
        registered(entries.drop_first(), id)
    }
}

/// The entries after `format` is registered under `id`: an id that is there
/// keeps its place and takes the format, a new id goes to the end.
pub open spec fn with_entry(entries: Entries, id: Seq<char>, format: Format) -> Entries
    decreases entries.len(),
{
    if entries.len() == 0 {
        seq![(id, format)]
    } else if entries[0].0 == id {
        seq![(id, format)] + entries.drop_first()
    } else {
        seq![entries[0]] + with_entry(entries.drop_first(), id, format)
    }
}

/// `IndexMap::new`: a registry without formats.
#[verifier::external_body]
pub(crate) fn registry_new() -> (m: Registry)
    ensures
        entries_of(m) == Seq::<(Seq<char>, Format)>::empty(),
{
    indexmap::IndexMap::new()
}

/// `IndexMap::insert`: registers a format. An id that is there keeps its place
/// in the order and takes the new format; a new id is added as the last.
#[verifier::external_body]
pub(crate) fn registry_insert(m: &mut Registry, id: &'static str, format: Format)
    ensures
        entries_of(*final(m)) == with_entry(entries_of(*old(m)), id@, format),
{
    m.insert(id, format);
}

/// `IndexMap::get`: the format registered under `id`, where there is one.
#[verifier::external_body]
pub(crate) fn registry_get<'a>(m: &'a Registry, id: &str) -> (r:
    Option<&'a Format>)
    ensures
        match r {
            Some(format) => registered(entries_of(*m), id@) == Some(*format),
            None => registered(entries_of(*m), id@) is None,
        },
{
    m.get(id)
}

/// `IndexMap::len`: the number of registered formats.
#[verifier::external_body]
pub(crate) fn registry_len(m: &Registry) -> (n: usize)
    ensures
        n == entries_of(*m).len(),
{
    m.len()
}

/// `IndexMap::get_index`: the id and the format at a position in the order,
/// and `None` past the last.
#[verifier::external_body]
pub(crate) fn registry_at<'a>(m: &'a Registry, i: usize) -> (r:
    Option<(&'static str, &'a Format)>)
    ensures
        match r {
            Some((id, format)) => i < entries_of(*m).len() && entries_of(*m)[i as int] == (
                id@,
                *format,
            ),
            None => i >= entries_of(*m).len(),
        },
{
    m.get_index(i).map(|(id, format)| (*id, format))
}

impl Format {
    /// The file name extensions of inputs in this format.
    pub open spec fn extensions(&self) -> Seq<Seq<char>> {
        match self {
            Format::Json(_) => Json::extensions(),
            Format::Csv(_) => Csv::extensions(),
        }
    }

    /// Whether a prefix of an input looks like this format.
    pub open spec fn accepts(&self, header: Seq<u8>) -> bool {
        match self {
            Format::Json(_) => Json::accepts(header),
            Format::Csv(format) => format.accepts(header),
        }
    }

    /// What an input decodes to in this format.
    pub open spec fn decoded(&self, input: Seq<u8>) -> Result<Tree, DecodeFault> {
        match self {
            Format::Json(_) => crate::formats::json::decoded(input),
            Format::Csv(format) => match crate::formats::table::decoded(
                crate::formats::rows::csv_rows(format.decode_settings(), input),
            ) {
                Ok(records) => Ok(Tree::List(records)),
                Err(fault) => Err(fault),
            },
        }
    }

    /// The bytes that records encode to in this format.
    pub open spec fn encoded(&self, items: Seq<Tree>) -> Result<Seq<u8>, EncodeFault> {
        match self {
            Format::Json(_) => crate::formats::json::encoded(items),
            Format::Csv(format) => format.encoded(items),
        }
    }

    /// Lists the file name extensions of inputs in this format.
    pub fn get_extensions(&self) -> (exts: Vec<&'static str>)
        ensures
            exts@.map_values(|e: &'static str| e@) == self.extensions(),
    {
        match self {
            Format::Json(format) => format.get_extensions(),
            Format::Csv(format) => format.get_extensions(),
        }
    }

    /// Says whether a prefix of an input looks like this format. Bytes of
    /// any kind are answered with `true` or `false`.
    pub fn is_valid_header(&self, header: &[u8]) -> (r: Result<bool, EachError>)
        ensures
            r is Ok,
            r.unwrap() == self.accepts(header@),
    {
        match self {
            Format::Json(format) => format.is_valid_header(header),
            Format::Csv(format) => format.is_valid_header(header),
        }
    }

    /// Decodes a whole input.
    pub fn parse(&self, input: &[u8]) -> (r: Result<serde_json::Value, DecodeError>)
        ensures
            match r {
                Ok(v) => self.decoded(input@) == Ok::<Tree, DecodeFault>(crate::value::tree_of(v)),
                Err(e) => self.decoded(input@) == Err::<Tree, DecodeFault>(e.fault()),
            },
    {
        match self {
            Format::Json(format) => format.parse(input),
            Format::Csv(format) => format.parse(input),
        }
    }

    /// Encodes records, as the format of this variant says.
    pub fn write(&self, values: &Vec<serde_json::Value>) -> (r: Result<Vec<u8>, EncodeError>)
        ensures
            match self.encoded(crate::value::items_of(values@)) {
                Ok(bytes) => r matches Ok(written) && written@ == bytes,
                Err(fault) => r matches Err(e) && e.fault() == fault,
            },
    {
        match self {
            Format::Json(format) => format.write(values),
            Format::Csv(format) => format.write(values),
        }
    }
}

/// The registry of a run: the tree format first, then the tabular format
/// with no character set.
pub open spec fn default_entries() -> Entries {
    seq![
        ("json"@, Format::Json(Json {})),
        ("csv"@, Format::Csv(Csv { delimiter: None, quote: None, escape: None })),
    ]
}

/// What the registry of a run holds under each id: the two formats under
/// theirs, and nothing under any other.
pub proof fn lemma_default_entries(id: Seq<char>)
    ensures
        registered(default_entries(), id) == if id == "json"@ {
            Some(Format::Json(Json {}))
        } else if id == "csv"@ {
            Some(Format::Csv(Csv { delimiter: None, quote: None, escape: None }))
        } else {
            None
        },
{
    reveal_with_fuel(registered, 3);
    reveal_strlit("json");
    reveal_strlit("csv");
    assert("json"@.len() == 4);
    assert("csv"@.len() == 3);
    let entries = default_entries();
    assert(entries.drop_first() =~= seq![entries[1]]);
    assert(entries.drop_first().drop_first() =~= Seq::<(Seq<char>, Format)>::empty());
}

/// Registers the formats in their fixed order of priority.
pub fn load_formats() -> (formats: Registry)
    ensures
        entries_of(formats) == default_entries(),
{
    let mut formats = registry_new();
    registry_insert(&mut formats, crate::formats::json::ID, Format::Json(Json {}));
    let ghost first = entries_of(formats);
    let tabular = Format::Csv(Csv::default());
    registry_insert(&mut formats, crate::formats::csv::ID, tabular);
    proof {
        reveal_strlit("json");
        reveal_strlit("csv");
        assert(crate::formats::json::ID@ == "json"@);
        assert(crate::formats::csv::ID@ == "csv"@);
        assert(first =~= seq![("json"@, Format::Json(Json {}))]);
        assert(first.drop_first() =~= Seq::<(Seq<char>, Format)>::empty());
        assert("json"@ != "csv"@) by {
            assert("json"@.len() == 4);
            assert("csv"@.len() == 3);
        }
        assert(with_entry(first.drop_first(), "csv"@, tabular) =~= seq![("csv"@, tabular)]);
        assert(with_entry(first, "csv"@, tabular) =~= seq![first[0]] + seq![("csv"@, tabular)]);
        assert(entries_of(formats) =~= default_entries());
    }
    formats
}

/// The position of the first format from `from` on that lists the extension.
pub open spec fn first_by_extension(entries: Entries, ext: Seq<char>, from: nat) -> Option<nat>
    decreases entries.len() - from,
{
    if from >= entries.len() {
        None
    } else if entries[from as int].1.extensions().contains(ext) {
        Some(from)
    } else {
        first_by_extension(entries, ext, from + 1)
    }
}

/// The position of the first format from `from` on that accepts the prefix.
pub open spec fn first_by_content(entries: Entries, header: Seq<u8>, from: nat) -> Option<nat>
    decreases entries.len() - from,
{
    if from >= entries.len() {
        None
    } else if entries[from as int].1.accepts(header) {
        Some(from)
    } else {
        first_by_content(entries, header, from + 1)
    }
}

/// The position of the format that an input is read as when no format is
/// asked for: the first that lists the extension of its name, and where none
/// does, or the name has no extension, the first that accepts its prefix.
pub open spec fn guessed(entries: Entries, ext: Option<Seq<char>>, header: Seq<u8>) -> Option<nat> {
    match ext {
        Some(e) => match first_by_extension(entries, e, 0) {
            Some(i) => Some(i),
            None => first_by_content(entries, header, 0),
        },
        None => first_by_content(entries, header, 0),
    }
}

/// What a choice of a format by position comes to.
pub open spec fn chosen(entries: Entries, at: Option<nat>, r: Option<&Format>) -> bool {
    match at {
        Some(i) => i < entries.len() && r == Some(&entries[i as int].1),
        None => r is None,
    }
}

fn lists_extension(format: &Format, ext: &String) -> (r: bool)
    ensures
        r == format.extensions().contains(ext@),
{
    let exts = format.get_extensions();
    let ghost all = exts@.map_values(|e: &'static str| e@);
    let mut k: usize = 0;
    while k < exts.len()
        invariant
            k <= exts@.len(),
            all == exts@.map_values(|e: &'static str| e@),
            all == format.extensions(),
            forall|j: int| 0 <= j < k ==> all[j] != ext@,
        decreases exts@.len() - k,
    {
        let candidate = String::from_str(exts[k]);
        if *ext == candidate {
            assert(all[k as int] == ext@);
            return true;
        }
        k = k + 1;
    }
    false
}

/// Looks a format up by its id.
pub fn find_format<'a>(formats: &'a Registry, id: &str) -> (r:
    Option<&'a Format>)
    ensures
        match r {
            Some(format) => registered(entries_of(*formats), id@) == Some(*format),
            None => registered(entries_of(*formats), id@) is None,
        },
{
    registry_get(formats, id)
}

/// Picks the first registered format that lists the extension.
pub fn match_extension<'a>(ext: &String, formats: &'a Registry) -> (r: Option<&'a Format>)
    ensures
        chosen(entries_of(*formats), first_by_extension(entries_of(*formats), ext@, 0), r),
{
    let ghost entries = entries_of(*formats);
    let n = registry_len(formats);
    let mut i: usize = 0;
    while i < n
        invariant
            i <= n == entries.len(),
            entries == entries_of(*formats),
            first_by_extension(entries, ext@, 0) == first_by_extension(entries, ext@, i as nat),
        decreases n - i,
    {
        if let Some((_, format)) = registry_at(formats, i) {
            if lists_extension(format, ext) {
                return Some(format);
            }
        }
        i = i + 1;
    }
    None
}

/// Picks the first registered format that accepts the prefix of an input.
pub fn match_content<'a>(header: &[u8], formats: &'a Registry) -> (r:
    Option<&'a Format>)
    ensures
        chosen(entries_of(*formats), first_by_content(entries_of(*formats), header@, 0), r),
{
    let ghost entries = entries_of(*formats);
    let n = registry_len(formats);
    let mut i: usize = 0;
    while i < n
        invariant
            i <= n == entries.len(),
            entries == entries_of(*formats),
            first_by_content(entries, header@, 0) == first_by_content(entries, header@, i as nat),
        decreases n - i,
    {
        if let Some((_, format)) = registry_at(formats, i) {
            if let Ok(true) = format.is_valid_header(header) {
                return Some(format);
            }
        }
        i = i + 1;
    }
    None
}

/// Picks the format of an input for which none was asked: by the extension
/// of its name where it has one that a format lists, else by its first bytes.
/// `None` says that no registered format fits.
///
/// The outcome is a function of the registry in its order, the extension and
/// the prefix: the same three give the same format at every call.
pub fn guess_format<'a>(
    ext: &Option<String>,
    header: &[u8],
    formats: &'a Registry,
) -> (r: Option<&'a Format>)
    ensures
        chosen(
            entries_of(*formats),
            guessed(entries_of(*formats), crate::text::text_of(*ext), header@),
            r,
        ),
{
    if let Some(e) = ext {
        if let Some(format) = match_extension(e, formats) {
            return Some(format);
        }
    }
    match_content(header, formats)
}

/// Among formats that accept a prefix, the one registered first is chosen:
/// a position is the choice by content exactly where its format accepts the
/// prefix and none before it does.
pub proof fn lemma_first_registered_wins(entries: Entries, header: Seq<u8>, i: nat)
    ensures
        first_by_content(entries, header, 0) == Some(i) <==> {
            &&& i < entries.len()
            &&& entries[i as int].1.accepts(header)
            &&& forall|j: int| 0 <= j < i ==> !(#[trigger] entries[j]).1.accepts(header)
        },
{
    lemma_first_by_content(entries, header, 0);
    let found = first_by_content(entries, header, 0);
    if i < entries.len() && entries[i as int].1.accepts(header) && (forall|j: int|
        0 <= j < i ==> !(#[trigger] entries[j]).1.accepts(header)) {
        if found is Some {
            let k = found.unwrap();
            if k < i {
                assert(!entries[k as int].1.accepts(header));
            }
        }
    }
}

proof fn lemma_first_by_content(entries: Entries, header: Seq<u8>, from: nat)
    ensures
        match first_by_content(entries, header, from) {
            Some(k) => {
                &&& from <= k < entries.len()
                &&& entries[k as int].1.accepts(header)
                &&& forall|j: int| from <= j < k ==> !(#[trigger] entries[j]).1.accepts(header)
            },
            None => forall|j: int|
                from <= j < entries.len() ==> !(#[trigger] entries[j]).1.accepts(header),
        },
    decreases entries.len() - from,
{
    if from < entries.len() && !entries[from as int].1.accepts(header) {
        lemma_first_by_content(entries, header, from + 1);
    }
}

/// The choice of a format is a function of the registry in its order, the
/// extension and the prefix: two choices made of the same three are the same
/// format, or both none.
pub proof fn lemma_same_guess(
    entries: Entries,
    ext: Option<Seq<char>>,
    header: Seq<u8>,
    first: Option<&Format>,
    second: Option<&Format>,
)
    requires
        chosen(entries, guessed(entries, ext, header), first),
        chosen(entries, guessed(entries, ext, header), second),
    ensures
        first == second,
{
}

} // verus!
