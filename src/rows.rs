use vstd::prelude::*;
use crate::model::{Circuit, CIRCUIT_FIELD_COUNT, column_header, column_names, strings_view};

verus! {

/// The records of a CSV text whose first line is a header: for each line after
/// the header, in order, its fields or the reader's error message.
pub uninterp spec fn csv_records(text: Seq<char>) -> Seq<Result<Seq<Seq<char>>, Seq<char>>>;

/// A record as plain text.
pub open spec fn record_view(r: Result<Vec<String>, String>) -> Result<Seq<Seq<char>>, Seq<char>> {
    match r {
        Ok(fields) => Ok(strings_view(fields@)),
        Err(e) => Err(e@),
    }
}

/// Records as plain text.
pub open spec fn records_view(rs: Seq<Result<Vec<String>, String>>) -> Seq<Result<Seq<Seq<char>>, Seq<char>>> {
    rs.map_values(|r: Result<Vec<String>, String>| record_view(r))
}

/// Relies on `csv::ReaderBuilder` (header row on, every other setting at its
/// default) and `csv::Reader::records`: each item that the iterator yields, in
/// order, as its fields or as the text of its error. The iterator goes on past a
/// record in error.
#[verifier::external_body]
fn read_records(text: &str) -> (r: Vec<Result<Vec<String>, String>>)
    ensures
        records_view(r@) == csv_records(text@),
{
    let mut reader = csv::ReaderBuilder::new().has_headers(true).from_reader(text.as_bytes());
    reader.records().map(|rec| match rec {
        Ok(row) => Ok(row.iter().map(String::from).collect()),
        Err(e) => Err(e.to_string()),
    }).collect()
}

/// Message of a row that has fewer columns than a circuit has attributes.
pub const SHORT_ROW_MESSAGE: &'static str = "row has fewer columns than a circuit record";

/// One row of an upload: a circuit, or the reason it could not be read.
pub enum DecodedRow {
    Decoded(Circuit),
    Malformed(String),
}

/// A decoded row as plain text.
pub enum RowView {
    /// The circuit's attributes in column order.
    Decoded(Seq<Seq<char>>),
    Malformed(Seq<char>),
}

impl View for DecodedRow {
    type V = RowView;

    open spec fn view(&self) -> RowView {
        match self {
            DecodedRow::Decoded(c) => RowView::Decoded(c@),
            DecodedRow::Malformed(m) => RowView::Malformed(m@),
        }
    }
}

/// Decoded rows as plain text.
pub open spec fn rows_view(rows: Seq<DecodedRow>) -> Seq<RowView> {
    rows.map_values(|r: DecodedRow| r@)
}

/// What a record becomes: the circuit of its leading columns, or a malformed row
/// that carries the reader's message or says that columns are missing.
pub open spec fn decode_spec(rec: Result<Seq<Seq<char>>, Seq<char>>) -> RowView {
    match rec {
        Ok(fields) => if fields.len() >= CIRCUIT_FIELD_COUNT {
            RowView::Decoded(fields.subrange(0, CIRCUIT_FIELD_COUNT as int))
        } else {
            RowView::Malformed(SHORT_ROW_MESSAGE@)
        },
        Err(e) => RowView::Malformed(e),
    }
}

/// The rows of a CSV text, one for each record after the header.
pub open spec fn decoded_rows(text: Seq<char>) -> Seq<RowView> {
    csv_records(text).map_values(|r: Result<Seq<Seq<char>>, Seq<char>>| decode_spec(r))
}

/// The row that one record becomes.
pub fn decode_record(rec: &Result<Vec<String>, String>) -> (r: DecodedRow)
    ensures
        r@ == decode_spec(record_view(*rec)),
{
    match rec {
        Ok(fields) => match Circuit::from_fields(fields) {
            Some(c) => DecodedRow::Decoded(c),
            None => DecodedRow::Malformed(SHORT_ROW_MESSAGE.to_string()),
        },
        Err(e) => DecodedRow::Malformed(e.clone()),
    }
}

/// The rows that a sequence of records becomes, one for each, in order; a record
/// in error leaves the others as they are.
pub fn decode_records(records: &Vec<Result<Vec<String>, String>>) -> (r: Vec<DecodedRow>)
    ensures
        rows_view(r@) == records_view(records@).map_values(
            |x: Result<Seq<Seq<char>>, Seq<char>>| decode_spec(x),
        ),
{
    let mut out: Vec<DecodedRow> = Vec::new();
    let mut i: usize = 0;
    while i < records.len()
        invariant
            i <= records.len(),
            out.len() == i,
            forall|j: int| 0 <= j < i ==> #[trigger] out@[j]@ == decode_spec(record_view(records@[j])),
        decreases records.len() - i,
    {
        let row = decode_record(&records[i]);
        out.push(row);
        i = i + 1;
    }
    assert(rows_view(out@) =~= records_view(records@).map_values(
        |x: Result<Seq<Seq<char>>, Seq<char>>| decode_spec(x),
    ));
    out
}

/// The rows of an uploaded CSV text whose first line is a header.
pub fn decode_rows(text: &str) -> (r: Vec<DecodedRow>)
    ensures
        rows_view(r@) == decoded_rows(text@),
{
    let records = read_records(text);
    decode_records(&records)
}

/// The bytes of one CSV record, terminator included, as a writer with default
/// settings puts it down.
pub uninterp spec fn csv_line(fields: Seq<Seq<char>>) -> Seq<u8>;

/// Relies on `csv::Writer::from_writer`, `csv::Writer::write_record` and
/// `csv::Writer::into_inner` over a `Vec<u8>`: the bytes of this one record. A
/// fresh writer's first record only sets the expected field count, and flushing
/// into a `Vec<u8>` cannot fail, so the call succeeds.
#[verifier::external_body]
fn write_csv_line(fields: &Vec<String>) -> (r: Result<Vec<u8>, String>)
    ensures
        r is Ok,
        r matches Ok(b) ==> b@ == csv_line(strings_view(fields@)),
{
    let mut writer = csv::Writer::from_writer(Vec::new());
    writer.write_record(fields).map_err(|e| e.to_string())?;
    writer.into_inner().map_err(|e| e.to_string())
}

/// The records of an export: nothing for no circuits, else the column names
/// followed by each circuit's attributes, in order.
pub open spec fn export_spec(circuits: Seq<Circuit>) -> Seq<Seq<Seq<char>>> {
    if circuits.len() == 0 {
        Seq::empty()
    } else {
        seq![column_names()] + circuits.map_values(|c: Circuit| c@)
    }
}

/// The bytes of a sequence of records written one after the other.
pub open spec fn csv_text(records: Seq<Seq<Seq<char>>>) -> Seq<u8>
    decreases records.len(),
{
    if records.len() == 0 {
        Seq::empty()
    } else {
        csv_text(records.drop_last()) + csv_line(records.last())
    }
}

/// The records of an export of these circuits.
pub fn export_rows(circuits: &Vec<Circuit>) -> (r: Vec<Vec<String>>)
    ensures
        r@.map_values(|f: Vec<String>| strings_view(f@)) == export_spec(circuits@),
{
    let mut out: Vec<Vec<String>> = Vec::new();
    if circuits.len() == 0 {
        assert(out@.map_values(|f: Vec<String>| strings_view(f@)) =~= export_spec(circuits@));
        return out;
    }
    out.push(column_header());
    let mut i: usize = 0;
    while i < circuits.len()
        invariant
            i <= circuits.len(),
            circuits.len() > 0,
            out.len() == i + 1,
            strings_view(out@[0]@) == column_names(),
            forall|j: int| 0 <= j < i ==> #[trigger] strings_view(out@[j + 1]@) == circuits@[j]@,
        decreases circuits.len() - i,
    {
        out.push(circuits[i].to_fields());
        i = i + 1;
    }
    let ghost expected = export_spec(circuits@);
    assert forall|j: int| 0 <= j < out@.len() implies #[trigger] strings_view(out@[j]@) == expected[j] by {
        if j > 0 {
            assert(strings_view(out@[(j - 1) + 1]@) == circuits@[j - 1]@);
        }
    }
    assert(out@.map_values(|f: Vec<String>| strings_view(f@)) =~= expected);
    out
}

/// The CSV text of an export: a header line and one line per circuit, or
/// nothing for no circuits.
pub fn export_csv(circuits: &Vec<Circuit>) -> (r: Result<Vec<u8>, String>)
    ensures
        r is Ok,
        r matches Ok(b) ==> b@ == csv_text(export_spec(circuits@)),
{
    let records = export_rows(circuits);
    let ghost recs = records@.map_values(|f: Vec<String>| strings_view(f@));
    let mut bytes: Vec<u8> = Vec::new();
    let mut i: usize = 0;
    while i < records.len()
        invariant
            i <= records.len(),
            recs == records@.map_values(|f: Vec<String>| strings_view(f@)),
            bytes@ == csv_text(recs.subrange(0, i as int)),
        decreases records.len() - i,
    {
        let mut line = match write_csv_line(&records[i]) {
            Ok(b) => b,
            Err(e) => return Err(e),
        };
        assert(recs.subrange(0, i + 1).drop_last() =~= recs.subrange(0, i as int));
        bytes.append(&mut line);
        i = i + 1;
    }
    assert(recs.subrange(0, recs.len() as int) =~= recs);
    Ok(bytes)
}

} // verus!
