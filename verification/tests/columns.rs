//! Column-codec behaviour on concrete texts.

use gff_codec::errors::{DecodeError, EncodeError};
use gff_codec::frame::{decode_frame, encode_frame, encode_frame_text};
use gff_codec::number::{decode_u64, encode_u64};
use gff_codec::score::{decode_score, encode_score, is_float_literal, Score};
use gff_codec::strand::{decode_strand, encode_strand, encode_strand_text, Strand, StrandError};

#[test]
fn score_sentinel_decodes_to_absent() {
    assert_eq!(decode_score("."), Ok(None));
}

#[test]
fn score_fifty_decodes_to_fifty() {
    let sc = decode_score("50").unwrap().unwrap();
    assert_eq!(sc.as_str(), "50");
    assert_eq!(sc.as_str().parse::<f64>().unwrap(), 50.0);
}

#[test]
fn score_garbage_is_rejected() {
    assert_eq!(
        decode_score("abc"),
        Err(DecodeError::InvalidScore { text: "abc".to_owned() })
    );
    assert_eq!(
        decode_score(""),
        Err(DecodeError::InvalidScore { text: "".to_owned() })
    );
}

#[test]
fn score_round_trip_reparses_to_the_same_value() {
    for v in [".", "50", "50.0", "0", "-3.14", ".5", "5.", "1e10", "1E10", "+2.5e-3", "-.5E+2"] {
        let decoded = decode_score(v).unwrap();
        let encoded = encode_score(&decoded);
        let redecoded = decode_score(&encoded).unwrap();
        assert_eq!(redecoded, decoded);
        match &decoded {
            None => assert_eq!(encoded, "."),
            Some(sc) => {
                let first: f64 = sc.as_str().parse().unwrap();
                let again: f64 = encoded.parse().unwrap();
                assert_eq!(first, again);
            }
        }
    }
}

#[test]
fn float_literal_grammar_accepts_standard_notation() {
    for v in [
        "1", "12", "1.", "1.5", ".5", "007", "1e3", "1E3", "1e+3", "1e-3", "1.e3", ".5e2", "0.0",
        "+1", "-1", "+1.5e-2", "-.5e-2", "18446744073709551616",
    ] {
        assert!(is_float_literal(v), "expected the grammar to accept {:?}", v);
        assert!(v.parse::<f64>().is_ok());
    }
}

#[test]
fn float_literal_grammar_rejects_everything_else() {
    for v in [
        "", ".", "+", "-", "e3", "E3", "1e", "1e+", "++1", "+-1", "1..2", "1.2.3", "1e2e3",
        "1e2.5", "abc", " 1", "1 ", "5,0", "--1", "+.e2",
    ] {
        assert!(!is_float_literal(v), "expected the grammar to reject {:?}", v);
    }
}

#[test]
fn float_literal_grammar_has_no_nan_or_infinity() {
    for v in ["NaN", "nan", "inf", "infinity", "Infinity", "-inf", "+NaN"] {
        assert!(!is_float_literal(v), "the format has no literal for {:?}", v);
        assert_eq!(
            decode_score(v),
            Err(DecodeError::InvalidScore { text: v.to_owned() })
        );
    }
}

#[test]
fn score_new_validates_like_decode() {
    assert_eq!(Score::new("1e5").unwrap().as_str(), "1e5");
    assert_eq!(
        Score::new("."),
        Err(DecodeError::InvalidScore { text: ".".to_owned() })
    );
    assert_eq!(
        Score::new("NaN"),
        Err(DecodeError::InvalidScore { text: "NaN".to_owned() })
    );
}

#[test]
fn strand_synonyms_all_decode_forward() {
    assert_eq!(decode_strand("f"), Ok(Some(Strand::Forward)));
    assert_eq!(decode_strand("+"), Ok(Some(Strand::Forward)));
    assert_eq!(decode_strand("F"), Ok(Some(Strand::Forward)));
    assert_eq!(decode_strand("r"), Ok(Some(Strand::Reverse)));
    assert_eq!(decode_strand("-"), Ok(Some(Strand::Reverse)));
    assert_eq!(decode_strand("R"), Ok(Some(Strand::Reverse)));
}

#[test]
fn strand_encode_is_canonical() {
    assert_eq!(encode_strand(&Some(Strand::Forward)), '+');
    assert_eq!(encode_strand(&Some(Strand::Reverse)), '-');
    assert_eq!(encode_strand_text(&Some(Strand::Forward)), "+");
    // a decoded synonym re-encodes to the canonical character, never itself
    let decoded = decode_strand("f").unwrap();
    assert_eq!(encode_strand(&decoded), '+');
}

#[test]
fn strand_absent_and_unknown_collapse_on_encode() {
    assert_eq!(decode_strand("."), Ok(None));
    assert_eq!(decode_strand("?"), Ok(Some(Strand::Unknown)));
    assert_eq!(encode_strand(&None), '.');
    assert_eq!(encode_strand(&Some(Strand::Unknown)), '.');
    assert_eq!(encode_strand_text(&Some(Strand::Unknown)), ".");
}

#[test]
fn strand_rejects_other_text() {
    assert_eq!(
        decode_strand("x"),
        Err(DecodeError::InvalidStrand { text: "x".to_owned() })
    );
    assert_eq!(
        decode_strand("++"),
        Err(DecodeError::InvalidStrand { text: "++".to_owned() })
    );
    assert_eq!(
        decode_strand(""),
        Err(DecodeError::InvalidStrand { text: "".to_owned() })
    );
}

#[test]
fn strand_error_wraps_a_message() {
    let e = StrandError::custom("invalid character 'x' in the strand".to_owned());
    assert_eq!(e.message(), "invalid character 'x' in the strand");
}

#[test]
fn frame_digits_decode_and_the_rest_does_not() {
    assert_eq!(decode_frame("0"), Ok(Some(0)));
    assert_eq!(decode_frame("1"), Ok(Some(1)));
    assert_eq!(decode_frame("2"), Ok(Some(2)));
    assert_eq!(decode_frame("."), Ok(None));
    assert_eq!(
        decode_frame("3"),
        Err(DecodeError::InvalidFrame { text: "3".to_owned() })
    );
    assert_eq!(
        decode_frame("00"),
        Err(DecodeError::InvalidFrame { text: "00".to_owned() })
    );
    assert_eq!(
        decode_frame(""),
        Err(DecodeError::InvalidFrame { text: "".to_owned() })
    );
}

#[test]
fn frame_encode_refuses_out_of_range() {
    assert_eq!(encode_frame(&None), Ok('.'));
    assert_eq!(encode_frame(&Some(0)), Ok('0'));
    assert_eq!(encode_frame(&Some(2)), Ok('2'));
    assert_eq!(
        encode_frame(&Some(3)),
        Err(EncodeError::InvalidFrame { value: 3 })
    );
    assert_eq!(
        encode_frame_text(&Some(255)),
        Err(EncodeError::InvalidFrame { value: 255 })
    );
    assert_eq!(encode_frame_text(&Some(1)), Ok("1".to_owned()));
}

#[test]
fn unsigned_columns_decode_decimal_digits_only() {
    assert_eq!(decode_u64("0"), Ok(0));
    assert_eq!(decode_u64("007"), Ok(7));
    assert_eq!(decode_u64("18446744073709551615"), Ok(u64::MAX));
    for v in ["", "+5", "-5", "12a", "1.5", "18446744073709551616"] {
        assert_eq!(
            decode_u64(v),
            Err(DecodeError::InvalidNumber { text: v.to_owned() }),
            "expected {:?} to be rejected",
            v
        );
    }
}

#[test]
fn unsigned_columns_encode_canonically() {
    assert_eq!(encode_u64(0), "0");
    assert_eq!(encode_u64(7), "7");
    assert_eq!(encode_u64(12345), "12345");
    assert_eq!(encode_u64(u64::MAX), "18446744073709551615");
    assert_eq!(decode_u64(&encode_u64(u64::MAX)), Ok(u64::MAX));
}
