//! The reader of comma-separated text that tables are made with.

use crate::table::TableView;
use vstd::prelude::*;

verus! {

/// The table that the reader of the `csv` crate makes of `bytes`, with a comma
/// as delimiter and with headers and fields trimmed: the first record as the
/// header, the records that follow it up to the first that the reader reports
/// an error for, and whether it reported none.
pub uninterp spec fn csv_table(bytes: Seq<u8>) -> TableView;

/// `csv::Error`, the error of the reader: a value that is handed on, of which
/// nothing is known.
#[verifier::external_type_specification]
#[verifier::external_body]
pub struct ExCsvError(csv::Error);

/// Runs a `csv::Reader`, built by `csv::ReaderBuilder` with the delimiter `,`
/// and `csv::Trim::All`, over `bytes`: `headers` gives the header, `records`
/// the rows. Reading stops at the first error, which is handed back. The
/// contract names the outcome [`csv_table`] and claims nothing else of it.
#[verifier::external_body]
pub(crate) fn split_records(bytes: &[u8]) -> (outcome: (Vec<String>, Vec<Vec<String>>, Option<csv::Error>))
    ensures
        outcome.0.deep_view() == csv_table(bytes@).header,
        outcome.1.deep_view() == csv_table(bytes@).rows,
        outcome.2 is None == csv_table(bytes@).complete,
{
    let mut reader =
        csv::ReaderBuilder::new().delimiter(b',').trim(csv::Trim::All).from_reader(bytes);
    let mut rows: Vec<Vec<String>> = Vec::new();
    let header: Vec<String> = match reader.headers() {
        Ok(names) => names.iter().map(String::from).collect(),
        Err(error) => return (Vec::new(), rows, Some(error)),
    };
    for record in reader.records() {
        match record {
            Ok(fields) => rows.push(fields.iter().map(String::from).collect()),
            Err(error) => return (header, rows, Some(error)),
        }
    }
    (header, rows, None)
}

/// The text that `csv::Error` displays itself as. Nothing is claimed of it.
#[verifier::external_body]
pub(crate) fn describe(error: &csv::Error) -> (text: String) {
    error.to_string()
}

} // verus!
