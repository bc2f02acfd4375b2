//! CSV text: the rows the `csv` crate reads from an uploaded file, and the bytes it
//! writes for the exported rows.
use vstd::prelude::*;

verus! {

/// The bytes the `csv` crate's writer, with its default settings, writes for one
/// record: the fields, quoted where needed, separated by commas, then `\n`.
pub uninterp spec fn csv_record_encoding(fields: Seq<Seq<char>>) -> Seq<u8>;

/// What the `csv` crate's reader, with its default settings (the first row is a
/// header and is skipped; every record must have as many fields as the first), reads
/// from a text: the records it gives before its first error, and whether it stopped
/// on an error.
pub uninterp spec fn csv_rows_of(text: Seq<char>) -> (Seq<Seq<Seq<char>>>, bool);

/// A row's fields as texts.
pub open spec fn fields_view(row: Seq<String>) -> Seq<Seq<char>> {
    row.map_values(|f: String| f@)
}

/// Rows of fields as texts.
pub open spec fn rows_view(rows: Seq<Vec<String>>) -> Seq<Seq<Seq<char>>> {
    rows.map_values(|r: Vec<String>| fields_view(r@))
}

/// `csv::Writer::from_writer` on an empty `Vec<u8>`, one `write_record` and
/// `into_inner`. The contract names the bytes: they depend on the fields alone. Writing
/// into memory does not fail (the first record of a writer cannot have the wrong
/// length), so the error arms are never taken.
#[verifier::external_body]
fn encode_csv_record(fields: &Vec<String>) -> (bytes: Vec<u8>)
    ensures
        bytes@ == csv_record_encoding(fields_view(fields@)),
{
    let mut writer = csv::Writer::from_writer(Vec::new());
    if writer.write_record(fields).is_err() {
        return Vec::new();
    }
    match writer.into_inner() {
        Ok(bytes) => bytes,
        Err(_) => Vec::new(),
    }
}

/// `csv::ReaderBuilder::new().from_reader(..).into_records()` over a text, each
/// record's fields taken as `String`s, until the first error. The contract names the
/// outcome: it depends on the text alone.
#[verifier::external_body]
pub(crate) fn read_csv_rows(text: &str) -> (r: (Vec<Vec<String>>, bool))
    ensures
        (rows_view(r.0@), r.1) == csv_rows_of(text@),
{
    let mut rows: Vec<Vec<String>> = Vec::new();
    for record in csv::ReaderBuilder::new().from_reader(text.as_bytes()).into_records() {
        match record {
            Ok(fields) => rows.push(fields.iter().map(|f| f.to_string()).collect()),
            Err(_) => return (rows, true),
        }
    }
    (rows, false)
}

/// The bytes of a CSV file holding `rows` in order.
pub open spec fn csv_document_of(rows: Seq<Seq<Seq<char>>>) -> Seq<u8>
    decreases rows.len(),
{
    if rows.len() == 0 {
        Seq::empty()
    } else {
        csv_document_of(rows.drop_last()) + csv_record_encoding(rows.last())
    }
}

/// Writes `rows` as a CSV file.
pub fn csv_document(rows: &Vec<Vec<String>>) -> (bytes: Vec<u8>)
    ensures
        bytes@ == csv_document_of(rows_view(rows@)),
{
    let mut bytes: Vec<u8> = Vec::new();
    let mut i: usize = 0;
    while i < rows.len()
        invariant
            i <= rows@.len(),
            bytes@ == csv_document_of(rows_view(rows@.take(i as int))),
        decreases rows@.len() - i,
    {
        let mut record = encode_csv_record(&rows[i]);
        bytes.append(&mut record);
        proof {
            let next = rows_view(rows@.take(i + 1));
            assert(next.drop_last() =~= rows_view(rows@.take(i as int)));
            assert(next.last() == fields_view(rows@[i as int]@));
        }
        i = i + 1;
    }
    assert(rows@.take(rows@.len() as int) =~= rows@);
    bytes
}

} // verus!
