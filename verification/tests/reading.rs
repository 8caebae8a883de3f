//! Reading whole texts through the tokenizer and the record decoder.

use gff_codec::errors::DecodeError;
use gff_codec::lines::{decode_rows, decode_text};
use gff_codec::strand::Strand;

const FIXTURE: &str = "P0A7B8\tUniProtKB\tInitiator methionine\t1\t1\t.\t.\t.\t\
Note=Removed,Obsolete;ID=test\n\
P0A7B8\tUniProtKB\tChain\t2\t176\t50\t+\t.\tNote=ATP-dependent protease subunit HslV;\
ID=PRO_0000148105";

#[test]
fn fixture_text_decodes_to_two_records() {
    let records = decode_text(FIXTURE).unwrap();
    assert_eq!(records.len(), 2);
    assert_eq!(records[0].seqname, "P0A7B8");
    assert_eq!(records[0].feature, "Initiator methionine");
    assert_eq!(records[0].score, None);
    assert_eq!(records[0].strand, None);
    assert_eq!(records[0].frame, None);
    assert_eq!(records[1].feature, "Chain");
    assert_eq!(records[1].start, 2);
    assert_eq!(records[1].end, 176);
    let score = records[1].score.as_ref().unwrap();
    assert_eq!(score.as_str().parse::<f64>().unwrap(), 50.0);
    assert_eq!(records[1].strand, Some(Strand::Forward));
    assert_eq!(
        records[1].attributes,
        "Note=ATP-dependent protease subunit HslV;ID=PRO_0000148105"
    );
}

#[test]
fn comment_lines_are_skipped_by_the_tokenizer() {
    let text = "# a comment line\nchr1\tsrc\tgene\t10\t20\t.\t+\t0\tx=y";
    let records = decode_text(text).unwrap();
    assert_eq!(records.len(), 1);
    assert_eq!(records[0].seqname, "chr1");
}

#[test]
fn the_tokenizer_undoes_csv_quoting() {
    // the quoted last column holds a literal tab; a plain split would see
    // ten columns and the wrong attribute text
    let text = "chr1\tsrc\tgene\t10\t20\t.\t+\t0\t\"a\tb\"";
    let records = decode_text(text).unwrap();
    assert_eq!(records.len(), 1);
    assert_eq!(records[0].attributes, "a\tb");
}

#[test]
fn a_short_line_fails_with_its_column_count() {
    let text = "chr1\tsrc\tgene\t10\t20\tx\t+\t0";
    assert_eq!(
        decode_text(text),
        Err(DecodeError::InvalidColumnCount { expected: 9, actual: 8 })
    );
}

#[test]
fn row_decoding_short_circuits_on_the_first_bad_row() {
    let good: Vec<String> = "chr1\tsrc\tgene\t10\t20\t.\t+\t0\tx=y"
        .split('\t')
        .map(|c| c.to_owned())
        .collect();
    let bad_strand: Vec<String> = "chr1\tsrc\tgene\t10\t20\t.\tzz\t0\tx=y"
        .split('\t')
        .map(|c| c.to_owned())
        .collect();
    let bad_frame: Vec<String> = "chr1\tsrc\tgene\t10\t20\t.\t+\t9\tx=y"
        .split('\t')
        .map(|c| c.to_owned())
        .collect();

    let rows = vec![good.clone(), bad_strand, bad_frame];
    assert_eq!(
        decode_rows(&rows),
        Err(DecodeError::InvalidStrand { text: "zz".to_owned() })
    );

    let rows = vec![good.clone(), good];
    let records = decode_rows(&rows).unwrap();
    assert_eq!(records.len(), 2);
    assert_eq!(records[0], records[1]);
}
