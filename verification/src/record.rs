//! The nine-column record model and its assembly.
//!
//! A record is decoded from the nine raw column texts of one tokenized line:
//! the generic decoders handle seqname, source, feature, start, end and
//! attributes, the three special codecs handle score, strand and frame, and
//! the first failing column short-circuits the decode with its error. A line
//! with any other number of columns is rejected before any column codec runs.
//! Encoding is the inverse and is total on any record a decode produced; it
//! fails only on a hand-built record with an out-of-range frame.

use vstd::prelude::*;

use crate::errors::{DecodeErr, DecodeError, EncodeError};
use crate::frame::{decode_frame, encode_frame_text, spec_decode_frame, spec_encode_frame,
    lemma_frame_round_trip};
use crate::number::{dec_string, decode_u64, encode_u64, lemma_u64_round_trip, spec_decode_u64};
use crate::score::{decode_score, encode_score, is_float_lit, lemma_dot_not_float, Score,
    spec_decode_score, spec_encode_score};
use crate::strand::{decode_strand, encode_strand_text, spec_decode_strand, spec_encode_strand,
    strand_collapse, Strand, lemma_strand_round_trip};
use crate::text::is_dot;

verus! {

/// The column count of the record format.
pub const NUM_COLUMNS: usize = 9;

/// Mathematical form of a record, used by the contracts: each text field is
/// a sequence of characters.
pub struct RecordV {
    pub seqname: Seq<char>,
    pub source: Seq<char>,
    pub feature: Seq<char>,
    pub start: u64,
    pub end: u64,
    pub score: Option<Seq<char>>,
    pub strand: Option<Strand>,
    pub frame: Option<u8>,
    pub attributes: Seq<char>,
}

impl RecordV {
    /// A well-formed record: the score, if present, is a float literal, and
    /// the frame, if present, is in range. Decoding only produces well-formed
    /// records, and every well-formed record encodes successfully.
    pub open spec fn wf(self) -> bool {
        &&& self.score matches Some(t) ==> is_float_lit(t)
        &&& self.frame matches Some(x) ==> x <= 2
    }

    /// The record as one encode/decode round trip canonicalizes it: an
    /// unknown strand collapses into absence; every other field is kept.
    pub open spec fn collapse(self) -> RecordV {
        RecordV { strand: strand_collapse(self.strand), ..self }
    }
}

/// One genomic feature annotation: the typed form of one nine-column line.
#[derive(Debug, Clone, PartialEq, Eq)]
pub struct Record {
    pub seqname: String,
    pub source: String,
    pub feature: String,
    pub start: u64,
    pub end: u64,
    pub score: Option<Score>,
    pub strand: Option<Strand>,
    pub frame: Option<u8>,
    pub attributes: String,
}

impl View for Record {
    type V = RecordV;

    open spec fn view(&self) -> RecordV {
        RecordV {
            seqname: self.seqname@,
            source: self.source@,
            feature: self.feature@,
            start: self.start,
            end: self.end,
            score: self.score.deep_view(),
            strand: self.strand,
            frame: self.frame,
            attributes: self.attributes@,
        }
    }
}

impl DeepView for Record {
    type V = RecordV;

    open spec fn deep_view(&self) -> RecordV {
        self.view()
    }
}

/// What decoding nine raw column texts returns: the record assembled from
/// the column decoders in column order, or the error of the first failing
/// column; a wrong column count is rejected before any column is looked at.
pub open spec fn spec_decode_record(cols: Seq<Seq<char>>) -> Result<RecordV, DecodeErr> {
    if cols.len() != 9 {
        Err(DecodeErr::InvalidColumnCount { expected: 9, actual: cols.len() as int })
    } else {
        match spec_decode_u64(cols[3]) {
            Err(e) => Err(e),
            Ok(start) => match spec_decode_u64(cols[4]) {
                Err(e) => Err(e),
                Ok(end) => match spec_decode_score(cols[5]) {
                    Err(e) => Err(e),
                    Ok(score) => match spec_decode_strand(cols[6]) {
                        Err(e) => Err(e),
                        Ok(strand) => match spec_decode_frame(cols[7]) {
                            Err(e) => Err(e),
                            Ok(frame) => Ok(
                                RecordV {
                                    seqname: cols[0],
                                    source: cols[1],
                                    feature: cols[2],
                                    start: start,
                                    end: end,
                                    score: score,
                                    strand: strand,
                                    frame: frame,
                                    attributes: cols[8],
                                },
                            ),
                        },
                    },
                },
            },
        }
    }
}

/// What encoding a record emits: its nine canonical column texts, or an
/// error for an out-of-range frame.
pub open spec fn spec_encode_record(r: RecordV) -> Result<Seq<Seq<char>>, EncodeError> {
    match spec_encode_frame(r.frame) {
        Err(e) => Err(e),
        Ok(fc) => Ok(
            seq![
                r.seqname,
                r.source,
                r.feature,
                dec_string(r.start as nat),
                dec_string(r.end as nat),
                spec_encode_score(r.score),
                seq![spec_encode_strand(r.strand)],
                seq![fc],
                r.attributes,
            ],
        ),
    }
}

/// The mathematical content of an executable record decode result.
pub open spec fn record_result_view(r: Result<Record, DecodeError>) -> Result<
    RecordV,
    DecodeErr,
> {
    match r {
        Ok(rec) => Ok(rec@),
        Err(e) => Err(e@),
    }
}

/// The mathematical content of an executable record encode result.
pub open spec fn columns_result_view(r: Result<Vec<String>, EncodeError>) -> Result<
    Seq<Seq<char>>,
    EncodeError,
> {
    match r {
        Ok(cols) => Ok(cols.deep_view()),
        Err(e) => Err(e),
    }
}

/// Decodes one tokenized line, given as its raw column texts in order, into
/// a record, short-circuiting on the first failing column.
pub fn decode_record(columns: &Vec<String>) -> (r: Result<Record, DecodeError>)
    ensures
        record_result_view(r) == spec_decode_record(columns.deep_view()),
        r matches Ok(rec) ==> rec@.wf(),
{
    let ghost cv = columns.deep_view();
    proof {
        assert forall|i: int| 0 <= i < columns@.len() implies cv[i] == columns@[i]@ by {}
    }
    if columns.len() != NUM_COLUMNS {
        return Err(
            DecodeError::InvalidColumnCount { expected: NUM_COLUMNS, actual: columns.len() },
        );
    }
    let start = match decode_u64(columns[3].as_str()) {
        Ok(v) => v,
        Err(e) => return Err(e),
    };
    let end = match decode_u64(columns[4].as_str()) {
        Ok(v) => v,
        Err(e) => return Err(e),
    };
    let score = match decode_score(columns[5].as_str()) {
        Ok(v) => v,
        Err(e) => return Err(e),
    };
    let strand = match decode_strand(columns[6].as_str()) {
        Ok(v) => v,
        Err(e) => return Err(e),
    };
    let frame = match decode_frame(columns[7].as_str()) {
        Ok(v) => v,
        Err(e) => return Err(e),
    };
    Ok(
        Record {
            seqname: columns[0].clone(),
            source: columns[1].clone(),
            feature: columns[2].clone(),
            start,
            end,
            score,
            strand,
            frame,
            attributes: columns[8].clone(),
        },
    )
}

/// Renders a record back to its nine canonical column texts. Total on any
/// record that a decode produced; fails exactly on a hand-built record whose
/// frame is out of range.
pub fn encode_record(record: &Record) -> (r: Result<Vec<String>, EncodeError>)
    ensures
        columns_result_view(r) == spec_encode_record(record@),
{
    let frame_text = match encode_frame_text(&record.frame) {
        Ok(s) => s,
        Err(e) => return Err(e),
    };
    let mut cols: Vec<String> = Vec::new();
    cols.push(record.seqname.clone());
    cols.push(record.source.clone());
    cols.push(record.feature.clone());
    cols.push(encode_u64(record.start));
    cols.push(encode_u64(record.end));
    cols.push(encode_score(&record.score));
    cols.push(encode_strand_text(&record.strand));
    cols.push(frame_text);
    cols.push(record.attributes.clone());
    proof {
        let expected = spec_encode_record(record@);
        assert(cols.deep_view() =~= expected->Ok_0);
    }
    Ok(cols)
}

/// Every well-formed record encodes successfully, and its encoded columns
/// decode back to the record itself up to the one lossy axis: an unknown
/// strand collapses into absence.
pub proof fn lemma_encode_decodable(rec: RecordV)
    requires
        rec.wf(),
    ensures
        match spec_encode_record(rec) {
            Ok(out) => spec_decode_record(out) == Ok::<RecordV, DecodeErr>(rec.collapse()),
            Err(_) => false,
        },
{
    lemma_frame_round_trip(rec.frame);
    let fc = spec_encode_frame(rec.frame)->Ok_0;
    let out = spec_encode_record(rec)->Ok_0;
    assert(out.len() == 9);
    lemma_u64_round_trip(rec.start);
    lemma_u64_round_trip(rec.end);
    assert(out[3] == dec_string(rec.start as nat));
    assert(out[4] == dec_string(rec.end as nat));
    match rec.score {
        None => {
            assert(spec_decode_score(out[5]) == Ok::<Option<Seq<char>>, DecodeErr>(None));
        },
        Some(t) => {
            lemma_dot_not_float();
            assert(!is_dot(t));
            assert(spec_decode_score(out[5]) == Ok::<Option<Seq<char>>, DecodeErr>(Some(t)));
        },
    }
    lemma_strand_round_trip(rec.strand);
    assert(out[6] == seq![spec_encode_strand(rec.strand)]);
    assert(out[7] == seq![fc]);
    assert(spec_decode_record(out)->Ok_0 =~= rec.collapse());
}

/// The record-level round trip: decoding nine accepted columns yields a
/// well-formed record; re-encoding it succeeds; the re-encoded columns
/// decode to the same record with an unknown strand collapsed into absence;
/// and that collapsed record re-encodes to the same columns, so one
/// encode/decode pass is idempotent.
pub proof fn lemma_record_round_trip(cols: Seq<Seq<char>>)
    ensures
        match spec_decode_record(cols) {
            Ok(rec) => rec.wf() && match spec_encode_record(rec) {
                Ok(out) => spec_decode_record(out) == Ok::<RecordV, DecodeErr>(rec.collapse())
                    && spec_encode_record(rec.collapse()) == spec_encode_record(rec),
                Err(_) => false,
            },
            Err(_) => true,
        },
{
    match spec_decode_record(cols) {
        Ok(rec) => {
            lemma_encode_decodable(rec);
            lemma_strand_round_trip(rec.strand);
            assert(rec.collapse().frame == rec.frame);
            match spec_encode_record(rec) {
                Ok(out) => {
                    assert(spec_encode_record(rec.collapse())->Ok_0 =~= out);
                },
                Err(_) => {},
            }
        },
        Err(_) => {},
    }
}

} // verus!
