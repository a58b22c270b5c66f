//! Loading a CSV source into a keyed table.

use vstd::prelude::*;
use vstd::string::*;
use crate::hashjoin::table::{collapse, rows_of, uniform, LoadError, Table};
use crate::text::texts;

verus! {

/// What the `csv` crate's reader, with its default settings, gives as the
/// header record of the bytes of a source, or nothing where it reports an
/// error.
pub uninterp spec fn csv_headers(data: Seq<u8>) -> Option<Seq<Seq<char>>>;

/// What the `csv` crate's reader, with its default settings, gives as the
/// records after the header record of the bytes of a source, or nothing
/// where it reports an error for one of them.
pub uninterp spec fn csv_body(data: Seq<u8>) -> Option<Seq<Seq<Seq<char>>>>;

/// The header and the records of a source, where both can be read.
pub open spec fn csv_records(data: Seq<u8>) -> Option<(Seq<Seq<char>>, Seq<Seq<Seq<char>>>)> {
    match (csv_headers(data), csv_body(data)) {
        (Some(headers), Some(records)) => Some((headers, records)),
        _ => None,
    }
}

/// The text with which the `csv` crate describes the error that its reader
/// reports for the header record of the bytes of a source.
pub uninterp spec fn csv_headers_error(data: Seq<u8>) -> Seq<char>;

/// The text with which the `csv` crate describes the first error that its
/// reader reports for the bytes of a source, header record and records
/// taken in order.
pub uninterp spec fn csv_read_error(data: Seq<u8>) -> Seq<char>;

/// `csv::Reader::from_reader` and `headers` on a byte slice: the first
/// record alone, or the `Display` text of the reader's error. Both are
/// fixed functions of the bytes; the contract names them and claims
/// nothing more of them.
#[verifier::external_body]
pub(crate) fn read_headers(data: &[u8]) -> (out: Result<Vec<String>, String>)
    ensures
        match out {
            Ok(headers) => csv_headers(data@) == Some(texts(headers@)),
            Err(text) => csv_headers(data@) is None && text@ == csv_headers_error(data@),
        },
{
    let mut reader = csv::Reader::from_reader(data);
    match reader.headers() {
        Ok(headers) => Ok(headers.iter().map(|s| s.to_string()).collect()),
        Err(e) => Err(e.to_string()),
    }
}

/// `csv::Reader::from_reader`, `headers` and `records` on a byte slice: the
/// header record first, then every further record until the first error,
/// of which the `Display` text comes back. All are fixed functions of the
/// bytes; the contract names them and claims nothing more: on success they
/// are the named header and records, and on failure one of the two has
/// nothing and the text is the named one.
#[verifier::external_body]
pub(crate) fn read_records(data: &[u8]) -> (out: Result<(Vec<String>, Vec<Vec<String>>), String>)
    ensures
        match out {
            Ok(parsed) => csv_headers(data@) == Some(texts(parsed.0@)) && csv_body(data@) == Some(
                rows_of(parsed.1@),
            ),
            Err(text) => (csv_headers(data@) is None || csv_body(data@) is None) && text@
                == csv_read_error(data@),
        },
{
    let mut reader = csv::Reader::from_reader(data);
    let first = reader.headers().map_err(|e| e.to_string())?;
    let headers: Vec<String> = first.iter().map(|s| s.to_string()).collect();
    let mut rows: Vec<Vec<String>> = Vec::new();
    for record in reader.records() {
        rows.push(record.map_err(|e| e.to_string())?.iter().map(|s| s.to_string()).collect());
    }
    Ok((headers, rows))
}

/// Why a source could not be loaded.
#[derive(Debug, Clone, PartialEq, Eq)]
pub enum ReadError {
    /// The bytes are not well-formed CSV; the text says why.
    Malformed(String),
    /// A record is not as wide as the header.
    Shape(LoadError),
}

/// The bytes of a source that may not have been fetched yet.
pub open spec fn fetched(source: Option<&[u8]>) -> Option<Seq<u8>> {
    match source {
        Some(bytes) => Some(bytes@),
        None => None,
    }
}

/// Whether the parsed form of a source gives a table: the source was read
/// and every record is as wide as the header.
pub open spec fn loads(parsed: Option<(Seq<Seq<char>>, Seq<Seq<Seq<char>>>)>) -> bool {
    parsed is Some && uniform(parsed->Some_0.0.len(), parsed->Some_0.1)
}

/// The text for a record that is not as wide as the header.
pub open spec fn shape_message() -> Seq<char> {
    "found a record with a different number of fields than the header"@
}

/// The text of each failure.
pub open spec fn read_message_of(e: ReadError) -> Seq<char> {
    match e {
        ReadError::Malformed(text) => text@,
        ReadError::Shape(_) => shape_message(),
    }
}

/// The description of why the bytes of a source give no table: the CSV
/// reader's own where it fails, and else that of a record of another width.
pub open spec fn load_error_text(data: Seq<u8>) -> Seq<char> {
    if csv_records(data) is None {
        csv_read_error(data)
    } else {
        shape_message()
    }
}

/// Whether `i` is the first record that is not `width` wide.
pub open spec fn is_first_ragged(width: nat, rows: Seq<Seq<Seq<char>>>, i: int) -> bool {
    &&& 0 <= i < rows.len()
    &&& rows[i].len() != width
    &&& forall|j: int| 0 <= j < i ==> (#[trigger] rows[j]).len() == width
}

impl ReadError {
    /// A description of the failure for a human reader.
    pub fn message(&self) -> (r: String)
        ensures
            r@ == read_message_of(*self),
    {
        match self {
            ReadError::Malformed(text) => text.clone(),
            ReadError::Shape(LoadError::UnequalLengths { .. }) => String::from_str(
                "found a record with a different number of fields than the header",
            ),
        }
    }
}

/// Reads one CSV source into a keyed table. The first record gives the
/// column names and is never stored as data; every further record is stored
/// under its first field, a later record replacing an earlier one with the
/// same key. Bytes that the CSV reader refuses are reported with its
/// description, and else the first record of another width than the header
/// with its position and widths.
pub fn read_csv_to_map(data: &[u8]) -> (r: Result<Table, ReadError>)
    ensures
        match csv_records(data@) {
            Some((headers, records)) => if uniform(headers.len(), records) {
                &&& r is Ok
                &&& r->Ok_0.wf()
                &&& r->Ok_0.headers_view() == headers
                &&& r->Ok_0.rows_view() == collapse(records)
            } else {
                &&& r matches Err(
                    ReadError::Shape(LoadError::UnequalLengths { record, expected_len, len }),
                )
                &&& is_first_ragged(headers.len(), records, record as int)
                &&& expected_len == headers.len()
                &&& len == records[record as int].len()
            },
            None => r matches Err(ReadError::Malformed(text)) && text@ == csv_read_error(data@),
        },
        r is Ok <==> loads(csv_records(data@)),
        r is Err ==> read_message_of(r->Err_0) == load_error_text(data@),
{
    match read_records(data) {
        Ok((headers, records)) => {
            proof {
                assert(texts(headers@).len() == headers@.len());
            }
            match Table::from_records(headers, &records) {
                Ok(table) => Ok(table),
                Err(e) => {
                    proof {
                        let LoadError::UnequalLengths { record, expected_len, len } = e;
                        assert(rows_of(records@)[record as int].len() == len);
                        assert forall|j: int| 0 <= j < record implies (#[trigger] rows_of(
                            records@,
                        )[j]).len() == headers@.len() by {
                            assert(records@[j]@.len() == headers@.len());
                        }
                    }
                    Err(ReadError::Shape(e))
                },
            }
        },
        Err(text) => Err(ReadError::Malformed(text)),
    }
}

} // verus!
