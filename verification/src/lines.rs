//! From raw tab-delimited text to records.
//!
//! Tokenizing text into rows of column texts is the business of the csv
//! crate, configured for the wire format: tab-delimited, no header line,
//! lines beginning with `#` skipped as comments, and no fixed column count
//! (the record decoder reports a wrong count itself). The decoding of the
//! rows the tokenizer yields is verified here: the rows decode in order, and
//! the first failing row short-circuits with its error.

use vstd::prelude::*;

use crate::errors::{DecodeErr, DecodeError};
use crate::record::{decode_record, spec_decode_record, Record, RecordV};

verus! {

/// The rows of column texts that the tokenizer yields for a given input
/// text: one row per non-comment line, in input order.
pub uninterp spec fn rows_of(s: Seq<char>) -> Seq<Seq<Seq<char>>>;

/// Relies on csv's `Error` type, declared so the tokenizer's `Result` can
/// stand in a signature; nothing is assumed about its contents.
#[verifier::external_type_specification]
#[verifier::external_body]
pub struct ExCsvError(csv::Error);

/// Relies on csv's `ReaderBuilder` and `Reader::records`: splits
/// tab-delimited text into one row of column texts per line, skipping `#`
/// comment lines and undoing csv quoting; the rows are a function of the
/// input text alone. On an in-memory `&str` the call always succeeds: a byte
/// slice cannot raise an I/O error, `flexible` disables the sole
/// record-length error, and every framing byte (tab, quote, `#`, line end)
/// is ASCII, so fields cut from valid UTF-8 stay valid UTF-8.
#[verifier::external_body]
fn tokenize_rows(input: &str) -> (r: Result<Vec<Vec<String>>, csv::Error>)
    ensures
        r is Ok,
        r matches Ok(rows) ==> rows.deep_view() == rows_of(input@),
{
    let mut rdr = csv::ReaderBuilder::new()
        .delimiter(b'\t')
        .has_headers(false)
        .comment(Some(b'#'))
        .flexible(true)
        .from_reader(input.as_bytes());
    let mut rows = Vec::new();
    for result in rdr.records() {
        let row = result?;
        rows.push(row.iter().map(|field| field.to_owned()).collect());
    }
    Ok(rows)
}

/// What decoding a sequence of rows returns: the records in row order, or
/// the error of the first row that fails to decode.
pub open spec fn spec_decode_rows(rows: Seq<Seq<Seq<char>>>) -> Result<Seq<RecordV>, DecodeErr>
    decreases rows.len(),
{
    if rows.len() == 0 {
        Ok(Seq::empty())
    } else {
        match spec_decode_record(rows[0]) {
            Err(e) => Err(e),
            Ok(rec) => match spec_decode_rows(rows.skip(1)) {
                Err(e) => Err(e),
                Ok(rest) => Ok(seq![rec] + rest),
            },
        }
    }
}

/// The mathematical content of an executable row-sequence decode result.
pub open spec fn rows_result_view(r: Result<Vec<Record>, DecodeError>) -> Result<
    Seq<RecordV>,
    DecodeErr,
> {
    match r {
        Ok(records) => Ok(records.deep_view()),
        Err(e) => Err(e@),
    }
}

/// Decodes tokenized rows into records in order, short-circuiting on the
/// first row that fails.
pub fn decode_rows(rows: &Vec<Vec<String>>) -> (r: Result<Vec<Record>, DecodeError>)
    ensures
        rows_result_view(r) == spec_decode_rows(rows.deep_view()),
        r matches Ok(records) ==> forall|j: int|
            0 <= j < records@.len() ==> (#[trigger] records@[j])@.wf(),
{
    let ghost rv = rows.deep_view();
    let mut out: Vec<Record> = Vec::new();
    let mut i: usize = 0;
    proof {
        assert(rv.skip(0) =~= rv);
        assert(out.deep_view() =~= Seq::<RecordV>::empty());
        match spec_decode_rows(rv) {
            Ok(rest) => {
                assert(Seq::<RecordV>::empty() + rest =~= rest);
            },
            Err(_) => {},
        }
    }
    while i < rows.len()
        invariant
            0 <= i <= rows@.len(),
            rv == rows.deep_view(),
            rv.len() == rows@.len(),
            out@.len() == i,
            forall|j: int| 0 <= j < out@.len() ==> (#[trigger] out@[j])@.wf(),
            spec_decode_rows(rv) == (match spec_decode_rows(rv.skip(i as int)) {
                Ok(rest) => Ok::<Seq<RecordV>, DecodeErr>(out.deep_view() + rest),
                Err(e) => Err(e),
            }),
        decreases rows@.len() - i,
    {
        proof {
            assert(rv[i as int] == rows@[i as int].deep_view());
            assert(rv.skip(i as int)[0] == rv[i as int]);
            assert(rv.skip(i as int).skip(1) =~= rv.skip(i + 1));
        }
        let record = match decode_record(&rows[i]) {
            Ok(rec) => rec,
            Err(e) => {
                return Err(e);
            },
        };
        let ghost old_out = out.deep_view();
        out.push(record);
        proof {
            assert(out.deep_view() =~= old_out + seq![record@]);
            match spec_decode_rows(rv.skip(i + 1)) {
                Ok(rest) => {
                    assert(old_out + (seq![record@] + rest) =~= (old_out + seq![record@]) + rest);
                },
                Err(_) => {},
            }
        }
        i = i + 1;
    }
    proof {
        assert(rv.skip(i as int) =~= Seq::<Seq<Seq<char>>>::empty());
        assert(out.deep_view() + Seq::<RecordV>::empty() =~= out.deep_view());
    }
    Ok(out)
}

/// Decodes raw tab-delimited text: tokenizes it into rows and decodes the
/// rows in order. Tokenizing an in-memory text never fails, so the result is
/// exactly what [`decode_rows`] returns for the tokenizer's rows.
pub fn decode_text(input: &str) -> (r: Result<Vec<Record>, DecodeError>)
    ensures
        rows_result_view(r) == spec_decode_rows(rows_of(input@)),
        r matches Ok(records) ==> forall|j: int|
            0 <= j < records@.len() ==> (#[trigger] records@[j])@.wf(),
{
    let rows = match tokenize_rows(input) {
        Ok(rows) => rows,
        Err(_) => unreached(),
    };
    decode_rows(&rows)
}

} // verus!
