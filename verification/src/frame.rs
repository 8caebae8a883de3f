//! Frame column codec.
//!
//! A frame column is one of the digits `0`, `1`, `2` (the reading-frame
//! offset) or the sentinel `.` (frame absent). The decoder rejects any other
//! text. The encoder refuses a frame value outside `{0, 1, 2}` instead of
//! emitting unparsable output: constructing such a record is a caller error,
//! reported as [`EncodeError::InvalidFrame`].

use vstd::prelude::*;

use crate::errors::{DecodeErr, DecodeError, EncodeError};

verus! {

/// What decoding a frame column returns: the text must be exactly one of the
/// characters `0 1 2 .`.
pub open spec fn spec_decode_frame(s: Seq<char>) -> Result<Option<u8>, DecodeErr> {
    if s.len() != 1 {
        Err(DecodeErr::InvalidFrame { text: s })
    } else if s[0] == '0' {
        Ok(Some(0u8))
    } else if s[0] == '1' {
        Ok(Some(1u8))
    } else if s[0] == '2' {
        Ok(Some(2u8))
    } else if s[0] == '.' {
        Ok(None)
    } else {
        Err(DecodeErr::InvalidFrame { text: s })
    }
}

/// What encoding a frame value yields: the digit of an in-range frame, the
/// sentinel for an absent one, and an error for anything else.
pub open spec fn spec_encode_frame(v: Option<u8>) -> Result<char, EncodeError> {
    match v {
        None => Ok('.'),
        Some(x) => if x == 0 {
            Ok('0')
        } else if x == 1 {
            Ok('1')
        } else if x == 2 {
            Ok('2')
        } else {
            Err(EncodeError::InvalidFrame { value: x })
        },
    }
}

/// The mathematical content of an executable frame decode result.
pub open spec fn frame_result_view(r: Result<Option<u8>, DecodeError>) -> Result<
    Option<u8>,
    DecodeErr,
> {
    match r {
        Ok(v) => Ok(v),
        Err(e) => Err(e@),
    }
}

/// Decodes a frame column: one of `0 1 2` or the sentinel `.`; any other
/// text, including multi-character text, is rejected.
pub fn decode_frame(text: &str) -> (r: Result<Option<u8>, DecodeError>)
    ensures
        frame_result_view(r) == spec_decode_frame(text@),
{
    let n = text.unicode_len();
    if n != 1 {
        return Err(DecodeError::InvalidFrame { text: text.to_owned() });
    }
    let c = text.get_char(0);
    match c {
        '0' => Ok(Some(0)),
        '1' => Ok(Some(1)),
        '2' => Ok(Some(2)),
        '.' => Ok(None),
        _ => Err(DecodeError::InvalidFrame { text: text.to_owned() }),
    }
}

/// Renders a frame value as its column character, refusing out-of-range
/// values.
pub fn encode_frame(frame: &Option<u8>) -> (r: Result<char, EncodeError>)
    ensures
        r == spec_encode_frame(*frame),
{
    match frame {
        None => Ok('.'),
        Some(x) => {
            if *x <= 2 {
                match *x {
                    0 => Ok('0'),
                    1 => Ok('1'),
                    _ => Ok('2'),
                }
            } else {
                Err(EncodeError::InvalidFrame { value: *x })
            }
        },
    }
}

/// Renders a frame value as its one-character column text, refusing
/// out-of-range values.
pub fn encode_frame_text(frame: &Option<u8>) -> (r: Result<String, EncodeError>)
    ensures
        match spec_encode_frame(*frame) {
            Ok(c) => r matches Ok(s) && s@ =~= seq![c],
            Err(e) => r == Err::<String, EncodeError>(e),
        },
{
    proof {
        reveal_strlit("0");
        reveal_strlit("1");
        reveal_strlit("2");
        reveal_strlit(".");
    }
    match frame {
        None => Ok(".".to_owned()),
        Some(x) => {
            if *x <= 2 {
                match *x {
                    0 => Ok("0".to_owned()),
                    1 => Ok("1".to_owned()),
                    _ => Ok("2".to_owned()),
                }
            } else {
                Err(EncodeError::InvalidFrame { value: *x })
            }
        },
    }
}

/// The digit of any in-range or absent frame decodes back to exactly that
/// frame, and encoding fails on exactly the out-of-range values.
pub proof fn lemma_frame_round_trip(v: Option<u8>)
    ensures
        match spec_encode_frame(v) {
            Ok(c) => spec_decode_frame(seq![c]) == Ok::<Option<u8>, DecodeErr>(v),
            Err(e) => v matches Some(x) && x > 2 && e == (EncodeError::InvalidFrame { value: x }),
        },
{
}

} // verus!
