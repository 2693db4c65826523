use each::errors::{EachError, ErrorClass};
use each::formats::csv::{says_tabular, str_to_u8, Csv};
use each::formats::table::{decode_rows, rows_for};
use each::formats::json::Json;
use each::formats::error::{DecodeError, EncodeError};
use each::formats::{
    find_format, guess_format, load_formats, match_content, match_extension, Format,
    DEFAULT_FORMAT,
};
use serde_json::Value;

const PEOPLE_CSV: &str =
    "name,email\nBart Simpson,bart@example.com\nHomer Simpson,homer@example.com\n";
const PEOPLE_TSV: &str =
    "name\temail\nBart Simpson\tbart@example.com\nHomer Simpson\thomer@example.com\n";
const PEOPLE_JSON: &str = r#"[{"name":"Bart Simpson","email":"bart@example.com"},{"name":"Homer Simpson","email":"homer@example.com"}]"#;

fn value(text: &str) -> Value {
    serde_json::from_str(text).unwrap()
}

fn people() -> Vec<Value> {
    value(PEOPLE_JSON).as_array().unwrap().clone()
}

fn row(fields: &[&str]) -> Result<Vec<String>, csv::Error> {
    Ok(fields.iter().map(|f| f.to_string()).collect())
}

fn keys(record: &Value) -> Vec<String> {
    record.as_object().unwrap().keys().cloned().collect()
}

#[test]
fn a_format_character_is_the_first_byte_of_the_text() {
    assert_eq!(str_to_u8(",").unwrap(), b',');
    assert_eq!(str_to_u8("\t").unwrap(), b'\t');
    assert_eq!(str_to_u8(";rest").unwrap(), b';');
    assert_eq!(str_to_u8("\u{7f}").unwrap(), 0x7f);
}

#[test]
fn a_format_character_needs_a_character() {
    let e = str_to_u8("").unwrap_err();
    assert_eq!(e.class(), ErrorClass::Usage);
    assert_eq!(e.message(), "Invalid char, need at least one character");
}

#[test]
fn a_format_character_is_a_single_byte() {
    let e = str_to_u8("\u{e9}t\u{e9}").unwrap_err();
    assert!(matches!(e, EachError::Usage { .. }));
    assert_eq!(e.message(), "Invalid char, first character must be single byte: '\u{e9}'");
    assert!(str_to_u8("\u{80}").is_err());
}

#[test]
fn csv_takes_its_characters_in_order() {
    let mut csv = Csv::default();
    assert!(csv.delimiter.is_none() && csv.quote.is_none() && csv.escape.is_none());
    csv.set_arguments(Some(";"), Some("'"), Some("\\")).unwrap();
    assert_eq!(csv.delimiter, Some(b';'));
    assert_eq!(csv.quote, Some(b'\''));
    assert_eq!(csv.escape, Some(b'\\'));
    csv.set_arguments(None, None, None).unwrap();
    assert!(csv.delimiter.is_none() && csv.quote.is_none() && csv.escape.is_none());
}

#[test]
fn csv_keeps_the_characters_set_before_a_bad_one() {
    let mut csv = Csv::default();
    csv.set_arguments(Some(","), Some("\""), Some("x")).unwrap();
    let e = csv.set_arguments(Some(";"), Some(""), Some("y")).unwrap_err();
    assert_eq!(e.class(), ErrorClass::Usage);
    assert_eq!(csv.delimiter, Some(b';'));
    assert_eq!(csv.quote, Some(b'"'));
    assert_eq!(csv.escape, Some(b'x'));
    let e = csv.set_arguments(Some(""), Some("'"), None).unwrap_err();
    assert_eq!(e.class(), ErrorClass::Usage);
    assert_eq!(csv.delimiter, Some(b';'));
    assert_eq!(csv.quote, Some(b'"'));
}

#[test]
fn the_extensions_of_the_formats() {
    assert_eq!(Csv::default().get_extensions(), vec!["csv"]);
    assert_eq!(Json {}.get_extensions(), vec!["json"]);
    assert_eq!(Format::Csv(Csv::default()).get_extensions(), vec!["csv"]);
    assert_eq!(Format::Json(Json {}).get_extensions(), vec!["json"]);
    assert_eq!(DEFAULT_FORMAT, "json");
}

#[test]
fn json_accepts_an_array_or_an_object() {
    let json = Json {};
    assert!(json.is_valid_header(b"[1, 2").unwrap());
    assert!(json.is_valid_header(b"{\"a\"").unwrap());
    assert!(!json.is_valid_header(b" [").unwrap());
    assert!(!json.is_valid_header(b"name,email\n").unwrap());
    assert!(!json.is_valid_header(b"").unwrap());
}

#[test]
fn csv_accepts_a_header_with_a_row() {
    let csv = Csv::default();
    assert!(csv.is_valid_header(PEOPLE_CSV.as_bytes()).unwrap());
    assert!(csv.is_valid_header(b"a\n1\n").unwrap());
    // A header alone has no row to show.
    assert!(!csv.is_valid_header(b"name,email\n").unwrap());
    assert!(!csv.is_valid_header(b"").unwrap());
    // The first row is not as long as the header.
    assert!(!csv.is_valid_header(b"a,b\n1\n").unwrap());
    assert!(!csv.is_valid_header(b"a,b\n1,\xff\n").unwrap());
}

#[test]
fn csv_sniffs_with_its_own_delimiter() {
    let mut csv = Csv::default();
    csv.set_arguments(Some("\t"), None, None).unwrap();
    assert!(csv.is_valid_header(PEOPLE_TSV.as_bytes()).unwrap());
    assert!(!csv.is_valid_header(b"a\tb\n1\n").unwrap());
    assert!(csv.is_valid_header(b"a,b\n1\n").unwrap());
}

#[test]
fn the_reader_builder_takes_the_characters() {
    let mut csv = Csv::default();
    csv.set_arguments(Some(";"), Some("'"), None).unwrap();
    let rows: Vec<Vec<String>> = csv
        .reader_builder()
        .from_reader("a;b\n'x;y';z\n".as_bytes())
        .records()
        .map(|r| r.unwrap().iter().map(String::from).collect())
        .collect();
    // No row is set apart as a header.
    assert_eq!(rows, vec![vec!["a", "b"], vec!["x;y", "z"]]);
}

#[test]
fn the_reader_builder_takes_the_escape() {
    let mut csv = Csv::default();
    csv.set_arguments(None, None, Some("\\")).unwrap();
    let input = b"a,b\n\"x\\\"y\",z\n";
    let decoded = csv.parse(input).unwrap();
    assert_eq!(decoded[0]["a"], Value::String("x\"y".to_string()));
    assert_eq!(decoded[0]["b"], Value::String("z".to_string()));
    // Without the escape the backslash is a character like any other.
    let plain = Csv::default().parse(b"a\nx\\y\n").unwrap();
    assert_eq!(plain[0]["a"], Value::String("x\\y".to_string()));
}

#[test]
fn failures_of_the_parsers_carry_their_words() {
    match (Json {}).parse(b"[1, 2") {
        Err(DecodeError::Syntax { message }) => assert!(message.contains("EOF")),
        other => panic!("unexpected outcome: {:?}", other),
    }
    match Csv::default().parse(b"a,b\n1,\xff\n") {
        Err(DecodeError::Malformed { record, message }) => {
            assert_eq!(record, 1);
            assert!(message.contains("UTF-8"));
        }
        other => panic!("unexpected outcome: {:?}", other),
    }
}

#[test]
fn csv_decodes_rows_under_the_header() {
    let decoded = Csv::default().parse(PEOPLE_CSV.as_bytes()).unwrap();
    assert_eq!(decoded, value(PEOPLE_JSON));
    let records = decoded.as_array().unwrap();
    assert_eq!(keys(&records[0]), vec!["name", "email"]);
}

#[test]
fn csv_keeps_the_order_of_the_columns() {
    let decoded = Csv::default().parse(b"zeta,alpha,mid\n1,2,3\n").unwrap();
    let records = decoded.as_array().unwrap();
    assert_eq!(records.len(), 1);
    assert_eq!(keys(&records[0]), vec!["zeta", "alpha", "mid"]);
    assert_eq!(records[0]["zeta"], Value::String("1".to_string()));
    assert_eq!(records[0]["mid"], Value::String("3".to_string()));
}

#[test]
fn a_header_alone_decodes_to_no_records() {
    let decoded = Csv::default().parse(b"name,email\n").unwrap();
    assert_eq!(decoded, Value::Array(vec![]));
}

#[test]
fn an_empty_input_has_no_header() {
    let e = Csv::default().parse(b"").unwrap_err();
    assert!(matches!(e, DecodeError::EmptyInput));
    assert_eq!(e.describe(), "Header row is empty");
    let rows: Vec<Result<Vec<String>, csv::Error>> = vec![];
    assert!(matches!(decode_rows(&rows), Err(DecodeError::EmptyInput)));
}

#[test]
fn a_row_of_another_length_fails_the_decode() {
    let rows = vec![
        row(&["name", "email"]),
        row(&["Bart", "bart@example.com"]),
        row(&["Homer"]),
        row(&["Lisa", "lisa@example.com", "extra"]),
    ];
    match decode_rows(&rows) {
        Err(DecodeError::RowLength { row, expected, found }) => {
            assert_eq!((row, expected, found), (1, 2, 1));
        }
        other => panic!("unexpected outcome: {:?}", other),
    }
    let rows = vec![row(&["a"]), row(&["1", "2"])];
    let e = decode_rows(&rows).unwrap_err();
    assert!(matches!(e, DecodeError::RowLength { row: 0, expected: 1, found: 2 }));
    assert_eq!(
        e.describe(),
        "Row 0 has different number of records than the header: 2 instead of 1"
    );
}

#[test]
fn a_short_row_in_the_input_is_an_error() {
    assert!(matches!(
        Csv::default().parse(b"a,b\n1,2\n3\n"),
        Err(DecodeError::RowLength { row: 1, expected: 2, found: 1 })
    ));
    assert!(matches!(
        Csv::default().parse(b"a,b\n1,2,3\n"),
        Err(DecodeError::RowLength { row: 0, expected: 2, found: 3 })
    ));
    let e = each::run::read_records(&Format::Csv(Csv::default()), b"a,b\n1,2\n3,4\n5\n", None)
        .unwrap_err();
    assert_eq!(e.class(), ErrorClass::Data);
    assert_eq!(
        e.message(),
        "failed to parse input: Row 2 has different number of records than the header: 1 instead of 2"
    );
}

#[test]
fn a_row_that_was_not_read_fails_the_decode() {
    let unread = || -> Result<Vec<String>, csv::Error> {
        Err(csv::Error::from(std::io::Error::new(std::io::ErrorKind::Other, "broken")))
    };
    let rows = vec![row(&["a"]), row(&["1"]), unread(), row(&["1", "2"])];
    assert!(matches!(decode_rows(&rows), Err(DecodeError::Malformed { record: 2, .. })));
    let rows = vec![unread(), row(&["1"])];
    assert!(matches!(decode_rows(&rows), Err(DecodeError::Malformed { record: 0, .. })));
    assert!(matches!(
        Csv::default().parse(b"a,b\n1,\xff\n"),
        Err(DecodeError::Malformed { record: 1, .. })
    ));
}

#[test]
fn a_repeated_column_keeps_its_first_place_and_last_value() {
    let rows = vec![row(&["a", "b", "a"]), row(&["1", "2", "3"])];
    let records = decode_rows(&rows).unwrap();
    assert_eq!(records.len(), 1);
    assert_eq!(keys(&records[0]), vec!["a", "b"]);
    assert_eq!(records[0]["a"], Value::String("3".to_string()));
    assert_eq!(records[0]["b"], Value::String("2".to_string()));
}

#[test]
fn records_lay_out_as_a_table() {
    let rows = rows_for(&people()).unwrap();
    assert_eq!(
        rows,
        vec![
            vec!["name", "email"],
            vec!["Bart Simpson", "bart@example.com"],
            vec!["Homer Simpson", "homer@example.com"],
        ]
    );
}

#[test]
fn no_records_make_no_rows() {
    assert_eq!(rows_for(&vec![]).unwrap(), Vec::<Vec<String>>::new());
    assert_eq!(Csv::default().write(&vec![]).unwrap(), Vec::<u8>::new());
}

#[test]
fn cells_hold_text_or_json() {
    let record = r#"{"s":"plain","n":12,"b":true,"z":null,"l":[1,"x"],"o":{"k":"v"}}"#;
    let records = vec![value(record)];
    let rows = rows_for(&records).unwrap();
    assert_eq!(rows[0], vec!["s", "n", "b", "z", "l", "o"]);
    assert_eq!(rows[1], vec!["plain", "12", "true", "null", r#"[1,"x"]"#, r#"{"k":"v"}"#]);
}

#[test]
fn the_columns_follow_the_first_record() {
    let records = vec![value(r#"{"b":"1","a":"2"}"#), value(r#"{"a":"3","b":"4"}"#)];
    let rows = rows_for(&records).unwrap();
    assert_eq!(rows, vec![vec!["b", "a"], vec!["1", "2"], vec!["4", "3"]]);
}

#[test]
fn a_record_that_is_no_object_fails_the_encode() {
    let e = rows_for(&vec![value("[1]")]).unwrap_err();
    assert!(matches!(e, EncodeError::NotAnObject { index: 0 }));
    assert_eq!(e.describe(), "Data to write must be an object, received record 0");
    let e = rows_for(&vec![value(r#"{"a":"1"}"#), value(r#""text""#)]).unwrap_err();
    assert!(matches!(e, EncodeError::NotAnObject { index: 1 }));
    assert!(matches!(
        Csv::default().write(&vec![value("3")]),
        Err(EncodeError::NotAnObject { index: 0 })
    ));
}

#[test]
fn a_record_with_other_fields_fails_the_encode() {
    let first = value(r#"{"a":"1","b":"2"}"#);
    let e = rows_for(&vec![first.clone(), value(r#"{"a":"1"}"#)]).unwrap_err();
    assert!(matches!(e, EncodeError::FieldCount { index: 1, expected: 2, found: 1 }));
    assert_eq!(e.describe(), "Record 1 has 1 fields where the first has 2");
    let e = rows_for(&vec![first.clone(), value(r#"{"a":"1","b":"2","c":"3"}"#)]).unwrap_err();
    assert!(matches!(e, EncodeError::FieldCount { index: 1, expected: 2, found: 3 }));
    let e = rows_for(&vec![first.clone(), first.clone(), value(r#"{"a":"1","c":"2"}"#)])
        .unwrap_err();
    match &e {
        EncodeError::MissingField { index, field } => {
            assert_eq!(*index, 2);
            assert_eq!(field, "b");
        }
        other => panic!("unexpected failure: {:?}", other),
    }
    assert_eq!(e.describe(), "Record 2 has no field b");
}

#[test]
fn csv_writes_what_it_reads() {
    let csv = Csv::default();
    let written = csv.write(&people()).unwrap();
    assert_eq!(String::from_utf8(written.clone()).unwrap(), PEOPLE_CSV);
    assert_eq!(csv.parse(&written).unwrap(), Value::Array(people()));
}

#[test]
fn a_table_round_trip_keeps_records_and_field_order() {
    let records = vec![
        value(r#"{"z":"a,b","y":"line\nbreak","x":"\"quoted\""}"#),
        value(r#"{"z":"","y":" spaced ","x":"plain"}"#),
    ];
    let csv = Csv::default();
    let back = csv.parse(&csv.write(&records).unwrap()).unwrap();
    let back = back.as_array().unwrap();
    assert_eq!(back, &records);
    for (record, given) in back.iter().zip(records.iter()) {
        assert_eq!(keys(record), keys(given));
        assert_eq!(keys(record), vec!["z", "y", "x"]);
    }
}

#[test]
fn json_round_trip_keeps_records_and_field_order() {
    let records = vec![
        value(r#"{"z":1,"a":{"n":[1,2,{"deep":null}]},"m":"text"}"#),
        value(r#"[true,false]"#),
    ];
    let json = Json {};
    let back = json.parse(&json.write(&records).unwrap()).unwrap();
    assert_eq!(back, Value::Array(records.clone()));
    assert_eq!(keys(&back[0]), vec!["z", "a", "m"]);
}

#[test]
fn json_decodes_a_document() {
    let json = Json {};
    assert_eq!(json.parse(PEOPLE_JSON.as_bytes()).unwrap(), value(PEOPLE_JSON));
    assert_eq!(json.parse(b"{\"a\": [1]}").unwrap(), value(r#"{"a":[1]}"#));
}

#[test]
fn json_rejects_what_is_no_document() {
    let json = Json {};
    assert!(matches!(json.parse(b"[1, 2"), Err(DecodeError::Syntax { .. })));
    assert!(matches!(json.parse(b""), Err(DecodeError::Syntax { .. })));
    let e = json.parse(b"[\"\xff\"]").unwrap_err();
    assert!(matches!(e, DecodeError::NotText));
    assert_eq!(e.describe(), "stream did not contain valid UTF-8");
}

#[test]
fn json_writes_an_indented_array() {
    let written = Json {}.write(&vec![value(r#"{"a":"1"}"#), value("2")]).unwrap();
    assert_eq!(
        String::from_utf8(written).unwrap(),
        "[\n  {\n    \"a\": \"1\"\n  },\n  2\n]"
    );
    assert_eq!(String::from_utf8(Json {}.write(&vec![]).unwrap()).unwrap(), "[]");
}

#[test]
fn json_has_no_options() {
    let mut json = Json {};
    assert!(json.set_arguments().is_ok());
}

#[test]
fn a_format_decodes_and_encodes_as_its_kind() {
    let csv = Format::Csv(Csv::default());
    let json = Format::Json(Json {});
    assert_eq!(csv.parse(PEOPLE_CSV.as_bytes()).unwrap(), value(PEOPLE_JSON));
    assert_eq!(json.parse(PEOPLE_JSON.as_bytes()).unwrap(), value(PEOPLE_JSON));
    assert_eq!(csv.write(&people()).unwrap(), PEOPLE_CSV.as_bytes());
    assert_eq!(json.parse(&json.write(&people()).unwrap()).unwrap(), value(PEOPLE_JSON));
    assert!(csv.is_valid_header(PEOPLE_CSV.as_bytes()).unwrap());
    assert!(!json.is_valid_header(PEOPLE_CSV.as_bytes()).unwrap());
}

#[test]
fn the_registry_holds_json_before_csv() {
    let formats = load_formats();
    let ids: Vec<&str> = formats.keys().cloned().collect();
    assert_eq!(ids, vec!["json", "csv"]);
    assert!(matches!(find_format(&formats, "json"), Some(Format::Json(_))));
    assert!(matches!(find_format(&formats, "csv"), Some(Format::Csv(_))));
    assert!(find_format(&formats, "xml").is_none());
    assert!(find_format(&formats, "CSV").is_none());
}

#[test]
fn an_extension_picks_its_format() {
    let formats = load_formats();
    assert!(matches!(match_extension(&"csv".to_string(), &formats), Some(Format::Csv(_))));
    assert!(matches!(match_extension(&"json".to_string(), &formats), Some(Format::Json(_))));
    assert!(match_extension(&"txt".to_string(), &formats).is_none());
    // The extension decides before the content does.
    let ext = Some("json".to_string());
    assert!(matches!(
        guess_format(&ext, PEOPLE_CSV.as_bytes(), &formats),
        Some(Format::Json(_))
    ));
}

#[test]
fn the_content_picks_a_format_where_no_extension_does() {
    let formats = load_formats();
    assert!(matches!(match_content(PEOPLE_CSV.as_bytes(), &formats), Some(Format::Csv(_))));
    assert!(matches!(match_content(PEOPLE_JSON.as_bytes(), &formats), Some(Format::Json(_))));
    let ext = Some("txt".to_string());
    assert!(matches!(
        guess_format(&ext, PEOPLE_CSV.as_bytes(), &formats),
        Some(Format::Csv(_))
    ));
    assert!(matches!(
        guess_format(&None, PEOPLE_JSON.as_bytes(), &formats),
        Some(Format::Json(_))
    ));
    assert!(guess_format(&None, b"", &formats).is_none());
    assert!(guess_format(&None, b"just a line", &formats).is_none());
}

#[test]
fn the_format_registered_first_wins() {
    let formats = load_formats();
    // Both formats accept these bytes: a table whose first column opens with a bracket.
    let both = b"[a],b\n1,2\n";
    assert!(Json {}.is_valid_header(both).unwrap());
    assert!(Csv::default().is_valid_header(both).unwrap());
    assert!(matches!(match_content(both, &formats), Some(Format::Json(_))));
    let mut reversed = indexmap::IndexMap::new();
    reversed.insert("csv", Format::Csv(Csv::default()));
    reversed.insert("json", Format::Json(Json {}));
    assert!(matches!(match_content(both, &reversed), Some(Format::Csv(_))));
}

#[test]
fn the_same_prefix_gives_the_same_format_at_every_call() {
    let formats = load_formats();
    for input in [PEOPLE_CSV.as_bytes(), PEOPLE_JSON.as_bytes(), b"nothing".as_slice()] {
        let first = guess_format(&None, input, &formats).map(|f| f.get_extensions());
        for _ in 0..5 {
            assert_eq!(guess_format(&None, input, &formats).map(|f| f.get_extensions()), first);
        }
    }
}

#[test]
fn an_input_is_tabular_by_its_first_record() {
    assert!(says_tabular(Some(true)));
    assert!(!says_tabular(Some(false)));
    assert!(!says_tabular(None));
}

fn write_all(rows: &[Vec<String>]) -> Result<Vec<u8>, String> {
    let mut writer = csv::Writer::from_writer(Vec::new());
    for row in rows {
        writer.serialize(row).map_err(|e| e.to_string())?;
    }
    writer.into_inner().map_err(|e| e.to_string())
}

fn cells(fields: &[&str]) -> Vec<String> {
    fields.iter().map(|f| f.to_string()).collect()
}

#[test]
fn the_writer_refuses_a_row_for_its_length_alone() {
    assert!(write_all(&[]).is_ok());
    let odd = cells(&["", "\u{0}\n\","]);
    assert!(write_all(&[cells(&["a", "b"]), cells(&["1", "2"]), odd]).is_ok());
    assert!(write_all(&[cells(&["a", "b"]), cells(&["1"])]).is_err());
    assert!(write_all(&[cells(&["a"]), cells(&["1"]), cells(&["1", "2"])]).is_err());
    assert!(write_all(&[cells(&[]), cells(&[])]).is_ok());
    assert!(write_all(&[cells(&[]), cells(&["a"])]).is_err());
    assert!(write_all(&[cells(&["a"]), cells(&[])]).is_err());
    assert!(write_all(&[cells(&[""]), cells(&["x"])]).is_ok());
}

#[test]
fn records_without_fields_make_rows_without_cells() {
    let records = vec![value("{}"), value("{}")];
    assert_eq!(rows_for(&records).unwrap(), vec![Vec::<String>::new(); 3]);
    assert!(Csv::default().write(&records).is_ok());
}

#[test]
fn a_format_registered_again_keeps_its_place() {
    let mut formats = indexmap::IndexMap::new();
    formats.insert("csv", Format::Csv(Csv::default()));
    formats.insert("json", Format::Json(Json {}));
    each::run::configure_formats(&mut formats, Some(";"), None, None).unwrap();
    let ids: Vec<&str> = formats.keys().cloned().collect();
    assert_eq!(ids, vec!["csv", "json"]);
    match find_format(&formats, "csv") {
        Some(Format::Csv(csv)) => assert_eq!(csv.delimiter, Some(b';')),
        _ => panic!("the tabular format is registered"),
    }
}

#[test]
fn a_format_with_its_own_characters_reads_what_it_writes() {
    let records = vec![
        value(r#"{"a;b":"x;y","q":"it's","e":"a|b!c","n":"two\nlines","d":"\"dq\"","s":"x\\y"}"#),
        value(r#"{"a;b":"","q":"'","e":"''\"\"","n":"\t","d":",","s":"\\"}"#),
    ];
    let settings: [(Option<&str>, Option<&str>, Option<&str>); 6] = [
        (None, None, None),
        (Some(";"), None, None),
        (Some("\t"), Some("'"), None),
        (Some(";"), Some("'"), Some("\\")),
        (None, None, Some("\\")),
        (Some("|"), Some("\""), Some("^")),
    ];
    for (delimiter, quote, escape) in settings {
        let mut csv = Csv::default();
        csv.set_arguments(delimiter, quote, escape).unwrap();
        let written = csv.write(&records).unwrap();
        let back = csv.parse(&written).unwrap();
        assert_eq!(back, Value::Array(records.clone()), "{:?}", (delimiter, quote, escape));
    }
}

#[test]
fn records_with_the_escape_character_are_written() {
    let mut csv = Csv::default();
    csv.set_arguments(None, None, Some("\\")).unwrap();
    let records = vec![value(r#"{"a":"x\\y","b":"back\\slash"}"#)];
    let written = csv.write(&records).unwrap();
    assert_eq!(String::from_utf8(written.clone()).unwrap(), "a,b\nx\\y,back\\slash\n");
    assert_eq!(csv.parse(&written).unwrap(), Value::Array(records));
    // A cell that needs quotes is written too, whatever it holds.
    assert!(csv.write(&vec![value(r#"{"a":"x\\\"y, z"}"#)]).is_ok());
}

#[test]
fn a_backslash_in_a_field_comes_back_where_no_escape_is_set() {
    let records = vec![value(r#"{"e":"back\\slash","f":"\\","g":"x\\\"y"}"#)];
    let mut csv = Csv::default();
    csv.set_arguments(Some(";"), Some("'"), None).unwrap();
    let back = csv.parse(&csv.write(&records).unwrap()).unwrap();
    assert_eq!(back, Value::Array(records));
}

#[test]
fn the_writer_takes_the_delimiter_and_the_quote() {
    let mut csv = Csv::default();
    csv.set_arguments(Some(";"), Some("'"), None).unwrap();
    let written = csv.write(&vec![value(r#"{"a":"x;y","b":"it's"}"#)]).unwrap();
    assert_eq!(String::from_utf8(written).unwrap(), "a;b\n'x;y';'it''s'\n");
    csv.set_arguments(None, None, Some("\\")).unwrap();
    let written = csv.write(&vec![value(r#"{"a":"say \"hi\"","b":"1,2"}"#)]).unwrap();
    assert_eq!(String::from_utf8(written).unwrap(), "a,b\n\"say \"\"hi\"\"\",\"1,2\"\n");
}
