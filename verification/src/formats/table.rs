//! Records as rows of a table, and back.
//!
//! The first row of a table names the fields. Each further row is one
//! record, with a string for each field in the order of the header.

use crate::formats::error::{DecodeError, DecodeFault, EncodeError, EncodeFault};
use crate::formats::rows::{csv_error_text, read_texts, table_texts, Row, Table};
use crate::text::texts;
use crate::value::{
    as_object, as_str, error_text, field_names, fields_of, items_of, json_text, lookup, map_get,
    map_insert, map_keys, map_len, map_new, to_text, tree_of, value_from_map, value_from_string,
    with_field, Fields, Tree,
};
use vstd::prelude::*;

verus! {

/// The fields that the first `n` columns of a row make under a header. A
/// column whose name came before takes the place of the earlier one.
pub open spec fn record_fields(header: Row, row: Row, n: nat) -> Fields
    decreases n,
{
    if n == 0 {
        Seq::empty()
    } else {
        with_field(
            record_fields(header, row, (n - 1) as nat),
            header[n - 1],
            Tree::Text(row[n - 1]),
        )
    }
}

/// The record that a row makes under a header.
pub open spec fn record_of(header: Row, row: Row) -> Tree {
    Tree::Object(record_fields(header, row, header.len()))
}

/// A row that was read, with as many fields as the header has.
pub open spec fn row_fits(width: nat, row: Option<Row>) -> bool {
    row is Some && row.unwrap().len() == width
}

/// The position of the first row from `from` on that does not fit, or the
/// number of rows where all fit.
pub open spec fn first_misfit(width: nat, rows: Seq<Option<Row>>, from: nat) -> nat
    decreases rows.len() - from,
{
    if from >= rows.len() {
        rows.len()
    } else if !row_fits(width, rows[from as int]) {
        from
    } else {
        first_misfit(width, rows, from + 1)
    }
}

/// What a table decodes to. The first row is the header. Every later row
/// becomes one record, unless a row before it or the row itself was not read
/// or differs from the header in length: the first such row fails the decode.
pub open spec fn decoded(rows: Seq<Option<Row>>) -> Result<Seq<Tree>, DecodeFault> {
    if rows.len() == 0 {
        Err(DecodeFault::EmptyInput)
    } else if rows[0] is None {
        Err(DecodeFault::Malformed { record: 0 })
    } else {
        let header = rows[0].unwrap();
        let k = first_misfit(header.len(), rows, 1);
        if k < rows.len() {
            match rows[k as int] {
                None => Err(DecodeFault::Malformed { record: k }),
                Some(row) => Err(
                    DecodeFault::RowLength {
                        row: (k - 1) as nat,
                        expected: header.len(),
                        found: row.len(),
                    },
                ),
            }
        } else {
            Ok(Seq::new((rows.len() - 1) as nat, |i: int| record_of(header, rows[i + 1].unwrap())))
        }
    }
}

proof fn lemma_first_misfit(width: nat, rows: Seq<Option<Row>>, from: nat, upto: nat)
    requires
        from <= upto <= rows.len(),
        forall|j: int| from <= j < upto ==> row_fits(width, #[trigger] rows[j]),
    ensures
        first_misfit(width, rows, from) == first_misfit(width, rows, upto),
    decreases upto - from,
{
    if from < upto {
        lemma_first_misfit(width, rows, from + 1, upto);
    }
}

/// Builds the record of one row under a header of the same length.
fn record_from_row(header: &Vec<String>, row: &Vec<String>) -> (v: serde_json::Value)
    requires
        header@.len() == row@.len(),
    ensures
        tree_of(v) == record_of(texts(header@), texts(row@)),
{
    let mut map = map_new();
    let mut j: usize = 0;
    while j < header.len()
        invariant
            j <= header@.len() == row@.len(),
            fields_of(map) == record_fields(texts(header@), texts(row@), j as nat),
        decreases header@.len() - j,
    {
        map_insert(&mut map, header[j].clone(), value_from_string(row[j].clone()));
        j = j + 1;
    }
    value_from_map(map)
}

/// Turns the rows that a reader found into records.
///
/// The first row names the fields. A row that was not read, or whose length
/// is not that of the header, fails the decode at the first such row: none is
/// cut or filled up.
pub fn decode_rows(rows: &Vec<Result<Vec<String>, csv::Error>>) -> (r: Result<
    Vec<serde_json::Value>,
    DecodeError,
>)
    ensures
        match r {
            Ok(records) => decoded(read_texts(rows@)) == Ok::<Seq<Tree>, DecodeFault>(
                items_of(records@),
            ),
            Err(e) => decoded(read_texts(rows@)) == Err::<Seq<Tree>, DecodeFault>(e.fault()),
        },
{
    if rows.len() == 0 {
        return Err(DecodeError::EmptyInput);
    }
    let header: &Vec<String> = match &rows[0] {
        Ok(fields) => fields,
        Err(e) => {
            return Err(DecodeError::Malformed { record: 0, message: csv_error_text(e) });
        },
    };
    let ghost all = read_texts(rows@);
    let ghost names = texts(header@);
    let mut records: Vec<serde_json::Value> = Vec::new();
    let mut k: usize = 1;
    while k < rows.len()
        invariant
            1 <= k <= rows@.len(),
            all == read_texts(rows@),
            all[0] == Some(names),
            names == texts(header@),
            forall|j: int| 1 <= j < k ==> row_fits(names.len(), #[trigger] all[j]),
            records@.len() == k - 1,
            forall|i: int|
                0 <= i < k - 1 ==> tree_of(#[trigger] records@[i]) == record_of(
                    names,
                    all[i + 1].unwrap(),
                ),
        decreases rows@.len() - k,
    {
        match &rows[k] {
            Err(e) => {
                proof {
                    lemma_first_misfit(names.len(), all, 1, k as nat);
                }
                return Err(DecodeError::Malformed { record: k, message: csv_error_text(e) });
            },
            Ok(fields) => {
                if fields.len() != header.len() {
                    proof {
                        lemma_first_misfit(names.len(), all, 1, k as nat);
                    }
                    return Err(
                        DecodeError::RowLength {
                            row: k - 1,
                            expected: header.len(),
                            found: fields.len(),
                        },
                    );
                }
                records.push(record_from_row(header, fields));
            },
        }
        k = k + 1;
    }
    proof {
        lemma_first_misfit(names.len(), all, 1, rows@.len() as nat);
        assert(items_of(records@) =~= Seq::new(
            (all.len() - 1) as nat,
            |i: int| record_of(names, all[i + 1].unwrap()),
        ));
    }
    Ok(records)
}

/// The text of a value in a cell: a string stands by its text, any other
/// value by its JSON text.
pub open spec fn cell_text(t: Tree) -> Option<Seq<char>> {
    match t {
        Tree::Text(s) => Some(s),
        _ => json_text(t),
    }
}

/// The first `n` cells of the row of a record, one for each column in turn.
pub open spec fn row_cells(
    index: nat,
    columns: Row,
    fields: Fields,
    n: nat,
) -> Result<Row, EncodeFault>
    decreases n,
{
    if n == 0 {
        Ok(Seq::empty())
    } else {
        match row_cells(index, columns, fields, (n - 1) as nat) {
            Err(fault) => Err(fault),
            Ok(cells) => match lookup(fields, columns[n - 1]) {
                None => Err(EncodeFault::MissingField { index, field: columns[n - 1] }),
                Some(value) => match cell_text(value) {
                    None => Err(EncodeFault::Unprintable { index, field: columns[n - 1] }),
                    Some(text) => Ok(cells.push(text)),
                },
            },
        }
    }
}

/// The row of the record with this index: it is an object with as many
/// fields as there are columns, and has a field for each column.
pub open spec fn row_of(index: nat, columns: Row, item: Tree) -> Result<Row, EncodeFault> {
    match item {
        Tree::Object(fields) => if fields.len() != columns.len() {
            Err(
                EncodeFault::FieldCount {
                    index,
                    expected: columns.len(),
                    found: fields.len(),
                },
            )
        } else {
            row_cells(index, columns, fields, columns.len())
        },
        _ => Err(EncodeFault::NotAnObject { index }),
    }
}

/// The rows of the first `n` records, or the fault of the first record that has none.
pub open spec fn data_rows(columns: Row, items: Seq<Tree>, n: nat) -> Result<Table, EncodeFault>
    decreases n,
{
    if n == 0 {
        Ok(Seq::empty())
    } else {
        match data_rows(columns, items, (n - 1) as nat) {
            Err(fault) => Err(fault),
            Ok(rows) => match row_of((n - 1) as nat, columns, items[n - 1]) {
                Err(fault) => Err(fault),
                Ok(row) => Ok(rows.push(row)),
            },
        }
    }
}

/// The table of a list of records: a header row with the field names of the
/// first record in their order, then one row for each record. No records make
/// a table without rows.
pub open spec fn table_of(items: Seq<Tree>) -> Result<Table, EncodeFault> {
    if items.len() == 0 {
        Ok(Seq::empty())
    } else {
        match items[0] {
            Tree::Object(fields) => match data_rows(field_names(fields), items, items.len()) {
                Err(fault) => Err(fault),
                Ok(rows) => Ok(seq![field_names(fields)] + rows),
            },
            _ => Err(EncodeFault::NotAnObject { index: 0 }),
        }
    }
}

proof fn lemma_row_cells_len(index: nat, columns: Row, fields: Fields, n: nat)
    ensures
        row_cells(index, columns, fields, n) matches Ok(cells) ==> cells.len() == n,
    decreases n,
{
    if n > 0 {
        lemma_row_cells_len(index, columns, fields, (n - 1) as nat);
    }
}

proof fn lemma_data_rows_len(columns: Row, items: Seq<Tree>, n: nat)
    ensures
        data_rows(columns, items, n) matches Ok(rows) ==> {
            &&& rows.len() == n
            &&& forall|i: int| 0 <= i < n ==> (#[trigger] rows[i]).len() == columns.len()
        },
    decreases n,
{
    if n > 0 {
        lemma_data_rows_len(columns, items, (n - 1) as nat);
        if items[n - 1] is Object {
            lemma_row_cells_len((n - 1) as nat, columns, items[n - 1]->Object_0, columns.len());
        }
    }
}

/// A table has a row for the header and one for each record, and every row
/// has as many cells as the header.
pub proof fn lemma_table_is_rectangular(items: Seq<Tree>)
    ensures
        table_of(items) matches Ok(rows) ==> {
            &&& items.len() > 0 ==> rows.len() == items.len() + 1
            &&& items.len() == 0 ==> rows.len() == 0
            &&& forall|i: int| 0 <= i < rows.len() ==> (#[trigger] rows[i]).len() == rows[0].len()
        },
{
    if items.len() > 0 && items[0] is Object {
        lemma_data_rows_len(field_names(items[0]->Object_0), items, items.len());
    }
}

/// Builds the row of one record under the columns of the table.
fn row_for(index: usize, columns: &Vec<String>, value: &serde_json::Value) -> (r: Result<
    Vec<String>,
    EncodeError,
>)
    ensures
        match r {
            Ok(row) => row_of(index as nat, texts(columns@), tree_of(*value)) == Ok::<
                Row,
                EncodeFault,
            >(texts(row@)),
            Err(e) => row_of(index as nat, texts(columns@), tree_of(*value)) == Err::<
                Row,
                EncodeFault,
            >(e.fault()),
        },
{
    let object = match as_object(value) {
        Some(object) => object,
        None => {
            return Err(EncodeError::NotAnObject { index });
        },
    };
    let found = map_len(object);
    if found != columns.len() {
        return Err(EncodeError::FieldCount { index, expected: columns.len(), found });
    }
    let ghost names = texts(columns@);
    let ghost fields = fields_of(*object);
    let mut row: Vec<String> = Vec::new();
    let mut j: usize = 0;
    proof {
        assert(texts(row@) =~= Row::empty());
    }
    while j < columns.len()
        invariant
            j <= columns@.len(),
            names == texts(columns@),
            fields == fields_of(*object),
            tree_of(*value) == Tree::Object(fields),
            fields.len() == names.len(),
            row_cells(index as nat, names, fields, j as nat) == Ok::<Row, EncodeFault>(texts(row@)),
        decreases columns@.len() - j,
    {
        let ghost before = texts(row@);
        proof {
            assert(names[j as int] == columns@[j as int]@);
            lemma_row_cells_fault(index as nat, names, fields, (j + 1) as nat, names.len());
        }
        let cell = match map_get(object, columns[j].as_str()) {
            None => {
                return Err(EncodeError::MissingField { index, field: columns[j].clone() });
            },
            Some(v) => match as_str(v) {
                Some(text) => text.to_owned(),
                None => match to_text(v) {
                    Ok(text) => text,
                    Err(e) => {
                        return Err(
                            EncodeError::Unprintable {
                                index,
                                field: columns[j].clone(),
                                message: error_text(&e),
                            },
                        );
                    },
                },
            },
        };
        row.push(cell);
        proof {
            assert(texts(row@) =~= before.push(cell@));
        }
        j = j + 1;
    }
    Ok(row)
}

/// Lays records out as a table: the header row, then a row for each record.
///
/// The field names of the first record, in their order, are the columns.
/// Every record has to be an object with exactly these fields; the first one
/// that is not fails the encode, and no field is left out silently. A string
/// fills its cell with its text, any other value with its JSON text.
pub fn rows_for(values: &Vec<serde_json::Value>) -> (r: Result<Vec<Vec<String>>, EncodeError>)
    ensures
        match r {
            Ok(rows) => table_of(items_of(values@)) == Ok::<Table, EncodeFault>(table_texts(rows@)),
            Err(e) => table_of(items_of(values@)) == Err::<Table, EncodeFault>(e.fault()),
        },
{
    let mut rows: Vec<Vec<String>> = Vec::new();
    if values.len() == 0 {
        proof {
            assert(table_texts(rows@) =~= Table::empty());
        }
        return Ok(rows);
    }
    let columns: Vec<String> = match as_object(&values[0]) {
        Some(object) => map_keys(object),
        None => {
            return Err(EncodeError::NotAnObject { index: 0 });
        },
    };
    let ghost items = items_of(values@);
    let ghost names = texts(columns@);
    let mut data: Vec<Vec<String>> = Vec::new();
    let mut i: usize = 0;
    proof {
        assert(table_texts(data@) =~= Table::empty());
    }
    while i < values.len()
        invariant
            i <= values@.len(),
            items == items_of(values@),
            names == texts(columns@),
            items.len() > 0,
            items[0] matches Tree::Object(fields) && field_names(fields) == names,
            data_rows(names, items, i as nat) == Ok::<Table, EncodeFault>(table_texts(data@)),
        decreases values@.len() - i,
    {
        let ghost before = table_texts(data@);
        proof {
            assert(items[i as int] == tree_of(values@[i as int]));
        }
        match row_for(i, &columns, &values[i]) {
            Ok(row) => {
                data.push(row);
                proof {
                    assert(table_texts(data@) =~= before.push(texts(row@)));
                }
            },
            Err(e) => {
                proof {
                    lemma_data_rows_fault(names, items, (i + 1) as nat, values@.len() as nat);
                }
                return Err(e);
            },
        }
        i = i + 1;
    }
    let ghost body = table_texts(data@);
    rows.push(columns);
    rows.append(&mut data);
    proof {
        assert(table_texts(rows@) =~= seq![names] + body);
    }
    Ok(rows)
}

proof fn lemma_row_cells_fault(index: nat, columns: Row, fields: Fields, n: nat, m: nat)
    requires
        n <= m,
    ensures
        row_cells(index, columns, fields, n) is Err ==> row_cells(index, columns, fields, m)
            == row_cells(index, columns, fields, n),
    decreases m - n,
{
    if n < m {
        lemma_row_cells_fault(index, columns, fields, n, (m - 1) as nat);
    }
}

proof fn lemma_data_rows_fault(columns: Row, items: Seq<Tree>, n: nat, m: nat)
    requires
        n <= m,
        data_rows(columns, items, n) is Err,
    ensures
        data_rows(columns, items, m) == data_rows(columns, items, n),
    decreases m - n,
{
    if n < m {
        lemma_data_rows_fault(columns, items, n, (m - 1) as nat);
    }
}

/// A decode takes every row or fails: it goes well exactly where there is a
/// header row that was read and every row after it was read with as many
/// fields as the header has. Then there is one record for each of these rows.
pub proof fn lemma_decode_is_strict(rows: Seq<Option<Row>>)
    ensures
        decoded(rows) is Ok <==> rows.len() > 0 && rows[0] is Some && forall|j: int|
            1 <= j < rows.len() ==> row_fits(rows[0].unwrap().len(), #[trigger] rows[j]),
        decoded(rows) matches Ok(records) ==> records.len() == rows.len() - 1,
{
    if rows.len() > 0 && rows[0] is Some {
        lemma_first_misfit_is_first(rows[0].unwrap().len(), rows, 1);
    }
}

/// A row that differs from the header in length fails the decode, and where
/// the rows before it fit, the failure names it: by its index among the rows
/// after the header, with the length of the header and its own.
pub proof fn lemma_row_length_is_named(rows: Seq<Option<Row>>, n: nat)
    requires
        n + 1 < rows.len(),
        rows[0] is Some,
        forall|j: int| 1 <= j <= n ==> row_fits(rows[0].unwrap().len(), #[trigger] rows[j]),
        rows[n as int + 1] is Some,
        rows[n as int + 1].unwrap().len() != rows[0].unwrap().len(),
    ensures
        decoded(rows) == Err::<Seq<Tree>, DecodeFault>(
            DecodeFault::RowLength {
                row: n,
                expected: rows[0].unwrap().len(),
                found: rows[n as int + 1].unwrap().len(),
            },
        ),
{
    lemma_first_misfit(rows[0].unwrap().len(), rows, 1, n + 1);
}

proof fn lemma_first_misfit_is_first(width: nat, rows: Seq<Option<Row>>, from: nat)
    ensures
        ({
            let k = first_misfit(width, rows, from);
            &&& k <= rows.len()
            &&& from <= rows.len() ==> from <= k
            &&& k < rows.len() ==> !row_fits(width, rows[k as int])
            &&& forall|j: int| from <= j < k ==> row_fits(width, #[trigger] rows[j])
        }),
    decreases rows.len() - from,
{
    if from < rows.len() && row_fits(width, rows[from as int]) {
        lemma_first_misfit_is_first(width, rows, from + 1);
    }
}

/// The fields of a record of a table: its names are `names`, in this order,
/// and each of its values is a string.
pub open spec fn text_record(names: Row, item: Tree) -> bool {
    &&& item matches Tree::Object(fields)
    &&& field_names(fields) == names
    &&& forall|j: int| 0 <= j < fields.len() ==> (#[trigger] fields[j]).1 is Text
}

/// The texts of the values of some fields, in their order.
pub open spec fn field_texts(fields: Fields) -> Row {
    fields.map_values(
        |f: (Seq<char>, Tree)|
            match f.1 {
                Tree::Text(s) => s,
                _ => Seq::empty(),
            },
    )
}

proof fn lemma_lookup_at(fields: Fields, j: int)
    requires
        field_names(fields).no_duplicates(),
        0 <= j < fields.len(),
    ensures
        lookup(fields, fields[j].0) == Some(fields[j].1),
    decreases fields.len(),
{
    let names = field_names(fields);
    if j > 0 {
        assert(names[0] == fields[0].0 && names[j] == fields[j].0);
        let rest = fields.drop_first();
        assert(field_names(rest) =~= names.drop_first());
        assert forall|a: int, b: int|
            0 <= a < names.drop_first().len() && 0 <= b < names.drop_first().len() && a
                != b implies names.drop_first()[a] != names.drop_first()[b] by {
            assert(names[a + 1] != names[b + 1]);
        }
        lemma_lookup_at(rest, j - 1);
    }
}

proof fn lemma_with_field_fresh(fields: Fields, key: Seq<char>, value: Tree)
    requires
        forall|i: int| 0 <= i < fields.len() ==> (#[trigger] fields[i]).0 != key,
    ensures
        with_field(fields, key, value) == fields.push((key, value)),
    decreases fields.len(),
{
    if fields.len() == 0 {
        assert(with_field(fields, key, value) =~= fields.push((key, value)));
    } else {
        let rest = fields.drop_first();
        assert(fields[0].0 != key);
        assert forall|i: int| 0 <= i < rest.len() implies (#[trigger] rest[i]).0 != key by {
            assert(rest[i] == fields[i + 1]);
        }
        lemma_with_field_fresh(rest, key, value);
        assert(seq![fields[0]] + rest.push((key, value)) =~= fields.push((key, value)));
    }
}

proof fn lemma_text_row(index: nat, fields: Fields, n: nat)
    requires
        field_names(fields).no_duplicates(),
        forall|j: int| 0 <= j < fields.len() ==> (#[trigger] fields[j]).1 is Text,
        n <= fields.len(),
    ensures
        row_cells(index, field_names(fields), fields, n) == Ok::<Row, EncodeFault>(
            field_texts(fields).take(n as int),
        ),
        record_fields(field_names(fields), field_texts(fields), n) == fields.take(n as int),
    decreases n,
{
    let names = field_names(fields);
    let cells = field_texts(fields);
    if n == 0 {
        assert(cells.take(0) =~= Row::empty());
        assert(fields.take(0) =~= Fields::empty());
    } else {
        lemma_text_row(index, fields, (n - 1) as nat);
        lemma_lookup_at(fields, n - 1);
        assert(names[n - 1] == fields[n - 1].0);
        assert(fields[n - 1].1 is Text);
        assert(cells.take(n - 1).push(cells[n - 1]) =~= cells.take(n as int));
        let before = fields.take(n - 1);
        assert forall|i: int| 0 <= i < before.len() implies (#[trigger] before[i]).0 != names[n
            - 1] by {
            assert(names[i] == fields[i].0);
        }
        lemma_with_field_fresh(before, names[n - 1], Tree::Text(cells[n - 1]));
        assert(before.push((names[n - 1], Tree::Text(cells[n - 1]))) =~= fields.take(n as int));
    }
}

proof fn lemma_record_fields_fresh(header: Row, row: Row, n: nat)
    requires
        header.no_duplicates(),
        n <= header.len(),
        n <= row.len(),
    ensures
        record_fields(header, row, n) == Seq::new(
            n,
            |j: int| (header[j], Tree::Text(row[j])),
        ),
    decreases n,
{
    let made = Seq::new(n, |j: int| (header[j], Tree::Text(row[j])));
    if n == 0 {
        assert(record_fields(header, row, n) =~= made);
    } else {
        lemma_record_fields_fresh(header, row, (n - 1) as nat);
        let before = record_fields(header, row, (n - 1) as nat);
        assert forall|i: int| 0 <= i < before.len() implies (#[trigger] before[i]).0 != header[n
            - 1] by {
            assert(before[i].0 == header[i]);
        }
        lemma_with_field_fresh(before, header[n - 1], Tree::Text(row[n - 1]));
        assert(before.push((header[n - 1], Tree::Text(row[n - 1]))) =~= made);
    }
}

/// The records of a table whose header names no column twice have the
/// columns as their fields, in the order of the header, with a string for
/// each: they are records that come through a table unchanged.
pub proof fn lemma_decoded_records_are_text(rows: Seq<Option<Row>>, records: Seq<Tree>)
    requires
        decoded(rows) == Ok::<Seq<Tree>, DecodeFault>(records),
        rows[0].unwrap().no_duplicates(),
    ensures
        forall|i: int|
            0 <= i < records.len() ==> text_record(rows[0].unwrap(), #[trigger] records[i]),
{
    lemma_decode_is_strict(rows);
    let header = rows[0].unwrap();
    lemma_first_misfit_is_first(header.len(), rows, 1);
    assert forall|i: int| 0 <= i < records.len() implies text_record(
        header,
        #[trigger] records[i],
    ) by {
        let row = rows[i + 1].unwrap();
        assert(row_fits(header.len(), rows[i + 1]));
        lemma_record_fields_fresh(header, row, header.len());
        let fields = record_fields(header, row, header.len());
        assert(records[i] == Tree::Object(fields));
        assert(field_names(fields) =~= header);
    }
}

/// The rows of records that all have the fields `names` with string values.
pub open spec fn text_rows(items: Seq<Tree>) -> Table {
    items.map_values(
        |item: Tree|
            match item {
                Tree::Object(fields) => field_texts(fields),
                _ => Seq::empty(),
            },
    )
}

proof fn lemma_text_rows(names: Row, items: Seq<Tree>, n: nat)
    requires
        names.no_duplicates(),
        forall|i: int| 0 <= i < items.len() ==> text_record(names, #[trigger] items[i]),
        n <= items.len(),
    ensures
        data_rows(names, items, n) == Ok::<Table, EncodeFault>(text_rows(items).take(n as int)),
    decreases n,
{
    if n == 0 {
        assert(text_rows(items).take(0) =~= Table::empty());
    } else {
        lemma_text_rows(names, items, (n - 1) as nat);
        assert(text_record(names, items[n - 1]));
        let fields = items[n - 1]->Object_0;
        lemma_text_row((n - 1) as nat, fields, fields.len());
        assert(field_texts(fields).take(fields.len() as int) =~= field_texts(fields));
        assert(text_rows(items).take(n - 1).push(field_texts(fields)) =~= text_rows(items).take(
            n as int,
        ));
    }
}

/// Records that share their field names, in one order, and hold only strings
/// always make a table: the header row holds the names in their order, and
/// the row after it for each record holds its values in that order.
pub proof fn lemma_text_records_make_a_table(names: Row, items: Seq<Tree>)
    requires
        items.len() > 0,
        names.no_duplicates(),
        forall|i: int| 0 <= i < items.len() ==> text_record(names, #[trigger] items[i]),
    ensures
        table_of(items) == Ok::<Table, EncodeFault>(seq![names] + text_rows(items)),
        (seq![names] + text_rows(items)).len() == items.len() + 1,
{
    lemma_text_rows(names, items, items.len());
    assert(text_record(names, items[0]));
    assert(text_rows(items).take(items.len() as int) =~= text_rows(items));
}

/// Records that share their field names, in one order, and hold only strings
/// come through a table unchanged: laid out as rows and decoded again, the
/// rows give the same records with their fields in the same order.
///
/// What the bytes of a table are is the work of the reader and the writer of
/// the `csv` crate; this speaks of the rows handed to the one and taken from
/// the other.
pub proof fn lemma_table_round_trip(names: Row, items: Seq<Tree>)
    requires
        items.len() > 0,
        names.no_duplicates(),
        forall|i: int| 0 <= i < items.len() ==> text_record(names, #[trigger] items[i]),
    ensures
        table_of(items) matches Ok(rows) && decoded(
            rows.map_values(|row: Row| Some(row)),
        ) == Ok::<Seq<Tree>, DecodeFault>(items),
{
    lemma_text_rows(names, items, items.len());
    assert(text_record(names, items[0]));
    let body = text_rows(items);
    assert(body.take(items.len() as int) =~= body);
    let rows = seq![names] + body;
    assert(table_of(items) == Ok::<Table, EncodeFault>(rows));
    let read = rows.map_values(|row: Row| Some(row));
    assert forall|j: int| 1 <= j < read.len() implies row_fits(names.len(), #[trigger] read[j]) by {
        assert(text_record(names, items[j - 1]));
        assert(read[j] == Some(body[j - 1]));
    }
    lemma_first_misfit(names.len(), read, 1, read.len());
    assert(read[0] == Some(names));
    let back = Seq::new((read.len() - 1) as nat, |i: int| record_of(names, read[i + 1].unwrap()));
    assert forall|i: int| 0 <= i < items.len() implies back[i] == items[i] by {
        assert(text_record(names, items[i]));
        let fields = items[i]->Object_0;
        assert(read[i + 1] == Some(body[i]));
        lemma_text_row(0, fields, fields.len());
        assert(fields.take(fields.len() as int) =~= fields);
    }
    assert(back =~= items);
}

} // verus!
