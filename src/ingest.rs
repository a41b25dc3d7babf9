use std::io::Read;
use vstd::prelude::*;

use crate::table::{all_rows_have_width, rows_of, RaggedRow, Table};

verus! {

#[verifier::external_type_specification]
#[verifier::external_body]
pub struct ExCsvError(csv::Error);

#[verifier::external_type_specification]
#[verifier::external_body]
pub struct ExIoError(std::io::Error);

/// The bytes that a gzip stream `gz` decompresses to, or `None` where it is
/// not a valid stream.
pub uninterp spec fn gunzip_of(gz: Seq<u8>) -> Option<Seq<u8>>;

/// The records of the delimited text `text`, each as its fields, or `None`
/// where the text is not well formed. Where `has_headers` holds, the first
/// line is a header and is not among the records.
pub uninterp spec fn csv_records_of(text: Seq<u8>, has_headers: bool, delimiter: u8) -> Option<
    Seq<Seq<Seq<char>>>,
>;

/// The fields of each record, as character sequences.
pub open spec fn fields_of(records: Seq<Vec<String>>) -> Seq<Seq<Seq<char>>> {
    records.map_values(|r: Vec<String>| r@.map_values(|f: String| f@))
}

/// Relies on flate2's `GzDecoder` read to its end: the decompressed bytes of a
/// gzip stream, or an error where the stream is corrupt or truncated.
#[verifier::external_body]
fn gunzip(gz: &[u8]) -> (r: Result<Vec<u8>, std::io::Error>)
    ensures
        r is Ok <==> gunzip_of(gz@) is Some,
        r matches Ok(bytes) ==> gunzip_of(gz@) == Some(bytes@),
{
    let mut out = Vec::new();
    flate2::read::GzDecoder::new(gz).read_to_end(&mut out).map(|_| out)
}

/// Relies on csv's `Reader` built with `has_headers` and `delimiter` and the
/// default strict record length: its string records, each as its fields.
/// With that default, all records have the same number of fields.
#[verifier::external_body]
fn csv_records(text: &[u8], has_headers: bool, delimiter: u8) -> (r: Result<
    Vec<Vec<String>>,
    csv::Error,
>)
    ensures
        r is Ok <==> csv_records_of(text@, has_headers, delimiter) is Some,
        r matches Ok(records) ==> csv_records_of(text@, has_headers, delimiter) == Some(
            fields_of(records@),
        ),
        r matches Ok(records) ==> forall|i: int|
            0 <= i < records@.len() ==> #[trigger] records@[i]@.len() == records@[0]@.len(),
{
    let mut reader = csv::ReaderBuilder::new().has_headers(has_headers).delimiter(
        delimiter,
    ).from_reader(text);
    reader.records().map(|rec| rec.map(|fields| fields.iter().map(String::from).collect())).collect()
}

/// Why delimited text could not be read into a table.
#[derive(Debug)]
pub enum ReadError {
    /// The compressed stream is corrupt or truncated.
    Decompress(std::io::Error),
    /// The text is not well-formed delimited text, or its records differ in
    /// length.
    Csv(csv::Error),
    /// The row at `at_row_index` has `actual` fields, the rows before it
    /// `expected`.
    NColumns { at_row_index: usize, expected: usize, actual: usize },
}

/// The cells of a table of fields, as character sequences.
pub open spec fn field_cells(t: Seq<Seq<String>>) -> Seq<Seq<Seq<char>>> {
    t.map_values(|r: Seq<String>| r.map_values(|f: String| f@))
}

/// Reads delimited text into a table of its fields, one row per record.
///
/// Succeeds exactly when the text is well-formed delimited text, its records
/// all of one length; the table then holds the records' fields in place.
pub fn array_from_csv(csv: &[u8], has_headers: bool, seperator: u8) -> (r: Result<
    Table<String>,
    ReadError,
>)
    ensures
        r is Ok <==> csv_records_of(csv@, has_headers, seperator) is Some,
        r matches Ok(t) ==> t.wf() && csv_records_of(csv@, has_headers, seperator) == Some(
            field_cells(t.view()),
        ),
        r is Err ==> r matches Err(ReadError::Csv(_)),
{
    let records = match csv_records(csv, has_headers, seperator) {
        Ok(records) => records,
        Err(e) => {
            return Err(ReadError::Csv(e));
        },
    };
    let ghost fields = records@;
    proof {
        let v = rows_of(fields);
        if fields.len() > 0 {
            assert forall|i: int| 0 <= i < v.len() implies #[trigger] v[i].len() == v[0].len() by {
                assert(fields[i]@.len() == fields[0]@.len());
            }
            assert(all_rows_have_width(v, v[0].len()));
        }
    }
    match Table::from_rows(records) {
        Ok(t) => {
            proof {
                assert(field_cells(t.view()) =~= fields_of(fields)) by {
                    assert forall|i: int| 0 <= i < fields.len() implies #[trigger] field_cells(
                        t.view(),
                    )[i] == fields_of(fields)[i] by {
                        assert(t.view()[i] == fields[i]@);
                        assert(field_cells(t.view())[i] =~= fields_of(fields)[i]);
                    }
                }
            }
            Ok(t)
        },
        Err(RaggedRow { at_row_index, expected, actual }) => Err(
            ReadError::NColumns { at_row_index, expected, actual },
        ),
    }
}

/// Reads gzip-compressed delimited text into a table of its fields.
///
/// Fails with `Decompress` exactly when the stream is not valid gzip; else
/// behaves as `array_from_csv` on the decompressed text.
pub fn array_from_csv_gz(gz: &[u8], has_headers: bool, seperator: u8) -> (r: Result<
    Table<String>,
    ReadError,
>)
    ensures
        gunzip_of(gz@) is None <==> r matches Err(ReadError::Decompress(_)),
        gunzip_of(gz@) matches Some(text) ==> {
            &&& r is Ok <==> csv_records_of(text, has_headers, seperator) is Some
            &&& r matches Ok(t) ==> t.wf() && csv_records_of(text, has_headers, seperator) == Some(
                field_cells(t.view()),
            )
            &&& r is Err ==> r matches Err(ReadError::Csv(_))
        },
{
    match gunzip(gz) {
        Ok(text) => array_from_csv(text.as_slice(), has_headers, seperator),
        Err(e) => Err(ReadError::Decompress(e)),
    }
}

} // verus!
