//! Emitting rows as CSV text.

use vstd::prelude::*;
use vstd::string::*;
use crate::hashjoin::table::rows_of;
use crate::text::texts;

verus! {

/// The bytes that the `csv` crate's writer, with its default settings,
/// emits for one record, terminator included, or nothing where it reports
/// an error.
pub uninterp spec fn csv_record_text(fields: Seq<Seq<char>>) -> Option<Seq<u8>>;

/// The text with which the `csv` crate describes the error that its writer
/// reports for one record.
pub uninterp spec fn csv_record_error(fields: Seq<Seq<char>>) -> Seq<char>;

/// The bytes of a sequence of rows: those of each row in order, or the
/// description of the failure of the first row that cannot be written.
pub open spec fn csv_text(rows: Seq<Seq<Seq<char>>>) -> Result<Seq<u8>, Seq<char>>
    decreases rows.len(),
{
    if rows.len() == 0 {
        Ok(Seq::<u8>::empty())
    } else {
        match csv_text(rows.drop_last()) {
            Err(text) => Err(text),
            Ok(before) => match csv_record_text(rows.last()) {
                Some(line) => Ok(before + line),
                None => Err(csv_record_error(rows.last())),
            },
        }
    }
}

/// `csv::Writer::from_writer` on an empty buffer, `write_record` with the
/// fields and `into_inner`: the bytes of one record, or the `Display` text
/// of the writer's error. Both are fixed functions of the fields; the
/// contract names them and claims nothing more.
#[verifier::external_body]
pub(crate) fn encode_record(fields: &Vec<String>) -> (out: Result<Vec<u8>, String>)
    ensures
        match out {
            Ok(bytes) => csv_record_text(texts(fields@)) == Some(bytes@),
            Err(text) => csv_record_text(texts(fields@)) is None && text@ == csv_record_error(
                texts(fields@),
            ),
        },
{
    let mut writer = csv::Writer::from_writer(Vec::new());
    writer.write_record(fields).map_err(|e| e.to_string())?;
    writer.into_inner().map_err(|e| csv::Error::from(e.into_error()).to_string())
}

/// Writes rows as CSV text, one record per row, in the dialect of the
/// sources: fields separated by commas, a field in double quotes where it
/// holds a comma, a quote or a line break. On failure the result is the
/// writer's description of the first row that it refused.
pub fn write_rows(rows: &Vec<Vec<String>>) -> (r: Result<Vec<u8>, String>)
    ensures
        match csv_text(rows_of(rows@)) {
            Ok(bytes) => r is Ok && r->Ok_0@ == bytes,
            Err(text) => r is Err && r->Err_0@ == text,
        },
{
    let ghost all = rows_of(rows@);
    let mut out: Vec<u8> = Vec::new();
    let mut i: usize = 0;
    proof {
        assert(all.take(0) =~= Seq::<Seq<Seq<char>>>::empty());
    }
    while i < rows.len()
        invariant
            i <= rows.len(),
            all == rows_of(rows@),
            csv_text(all.take(i as int)) == Ok::<Seq<u8>, Seq<char>>(out@),
        decreases rows.len() - i,
    {
        proof {
            assert(all.take(i + 1).drop_last() =~= all.take(i as int));
            assert(all.take(i + 1).last() == texts(rows@[i as int]@));
        }
        match encode_record(&rows[i]) {
            Ok(mut line) => {
                out.append(&mut line);
            },
            Err(text) => {
                proof {
                    lemma_csv_text_prefix(all, i + 1);
                }
                return Err(text);
            },
        }
        i = i + 1;
    }
    proof {
        assert(all.take(i as int) =~= all);
    }
    Ok(out)
}

/// Where a prefix of the rows cannot be written, the rows cannot, and for
/// the same reason.
pub proof fn lemma_csv_text_prefix(rows: Seq<Seq<Seq<char>>>, n: int)
    requires
        0 <= n <= rows.len(),
        csv_text(rows.take(n)) is Err,
    ensures
        csv_text(rows) == csv_text(rows.take(n)),
    decreases rows.len() - n,
{
    if n < rows.len() {
        assert(rows.take(n + 1).drop_last() =~= rows.take(n));
        lemma_csv_text_prefix(rows, n + 1);
    } else {
        assert(rows.take(n) =~= rows);
    }
}

} // verus!
