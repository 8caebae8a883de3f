//! Strand column codec.
//!
//! The read path is permissive and accepts historical synonyms (`f`/`F` for
//! forward, `r`/`R` for reverse); the write path is canonicalizing and emits
//! one character per state. A record's strand field is an `Option<Strand>`:
//! `None` stands for the absent sentinel `.`, which is distinct from
//! [`Strand::Unknown`] (`?`, strand known to be ambiguous) on decode. By
//! design the encoder collapses both onto the sentinel `.`, the one lossy
//! axis of the codec.

use vstd::prelude::*;

use crate::errors::{DecodeErr, DecodeError};

verus! {

/// The DNA/RNA strand a feature is annotated on.
#[derive(Debug, Clone, Copy, PartialEq, Eq, Structural)]
pub enum Strand {
    Forward,
    Reverse,
    Unknown,
}

/// What decoding a strand column returns: the text must be exactly one
/// character of the accepted alphabet.
pub open spec fn spec_decode_strand(s: Seq<char>) -> Result<Option<Strand>, DecodeErr> {
    if s.len() != 1 {
        Err(DecodeErr::InvalidStrand { text: s })
    } else if s[0] == '+' || s[0] == 'f' || s[0] == 'F' {
        Ok(Some(Strand::Forward))
    } else if s[0] == '-' || s[0] == 'r' || s[0] == 'R' {
        Ok(Some(Strand::Reverse))
    } else if s[0] == '?' {
        Ok(Some(Strand::Unknown))
    } else if s[0] == '.' {
        Ok(None)
    } else {
        Err(DecodeErr::InvalidStrand { text: s })
    }
}

/// The canonical character of each strand state: synonyms never reappear on
/// encode, and `Unknown` and absence share the sentinel.
pub open spec fn spec_encode_strand(v: Option<Strand>) -> char {
    match v {
        Some(Strand::Forward) => '+',
        Some(Strand::Reverse) => '-',
        Some(Strand::Unknown) => '.',
        None => '.',
    }
}

/// The state a strand reaches after one encode/decode round trip: `Unknown`
/// collapses into absence, the other states are kept.
pub open spec fn strand_collapse(v: Option<Strand>) -> Option<Strand> {
    match v {
        Some(Strand::Unknown) => None,
        _ => v,
    }
}

/// The mathematical content of an executable strand decode result.
pub open spec fn strand_result_view(r: Result<Option<Strand>, DecodeError>) -> Result<
    Option<Strand>,
    DecodeErr,
> {
    match r {
        Ok(v) => Ok(v),
        Err(e) => Err(e@),
    }
}

/// Decodes a strand column: one character of `+ - ? .` or of the accepted
/// synonyms `f F r R`; anything else is rejected.
pub fn decode_strand(text: &str) -> (r: Result<Option<Strand>, DecodeError>)
    ensures
        strand_result_view(r) == spec_decode_strand(text@),
{
    let n = text.unicode_len();
    if n != 1 {
        return Err(DecodeError::InvalidStrand { text: text.to_owned() });
    }
    let c = text.get_char(0);
    match c {
        '+' | 'f' | 'F' => Ok(Some(Strand::Forward)),
        '-' | 'r' | 'R' => Ok(Some(Strand::Reverse)),
        '?' => Ok(Some(Strand::Unknown)),
        '.' => Ok(None),
        _ => Err(DecodeError::InvalidStrand { text: text.to_owned() }),
    }
}

/// Renders a strand state as its canonical character.
pub fn encode_strand(strand: &Option<Strand>) -> (c: char)
    ensures
        c == spec_encode_strand(*strand),
{
    match strand {
        Some(Strand::Forward) => '+',
        Some(Strand::Reverse) => '-',
        Some(Strand::Unknown) => '.',
        None => '.',
    }
}

/// Renders a strand state as its one-character column text.
pub fn encode_strand_text(strand: &Option<Strand>) -> (s: String)
    ensures
        s@ =~= seq![spec_encode_strand(*strand)],
{
    proof {
        reveal_strlit("+");
        reveal_strlit("-");
        reveal_strlit(".");
    }
    match strand {
        Some(Strand::Forward) => "+".to_owned(),
        Some(Strand::Reverse) => "-".to_owned(),
        _ => ".".to_owned(),
    }
}

/// Encoding is canonicalizing and lossy on exactly one axis: the canonical
/// character of any strand state decodes back to that state with `Unknown`
/// collapsed into absence, and the collapse itself does not change what is
/// encoded.
pub proof fn lemma_strand_round_trip(v: Option<Strand>)
    ensures
        spec_decode_strand(seq![spec_encode_strand(v)]) == Ok::<Option<Strand>, DecodeErr>(
            strand_collapse(v),
        ),
        spec_encode_strand(strand_collapse(v)) == spec_encode_strand(v),
{
}

/// The message-carrying error form for strand diagnostics: a caller that
/// only keeps a rendered message wraps it here.
#[derive(Debug, Clone)]
pub enum StrandError {
    Message(String),
}

impl StrandError {
    /// Wraps a rendered diagnostic message.
    pub fn custom(msg: String) -> (e: Self)
        ensures
            e matches StrandError::Message(m) && m == msg,
    {
        StrandError::Message(msg)
    }

    /// The wrapped message.
    pub fn message(&self) -> (m: &String)
        ensures
            (match self {
                StrandError::Message(s) => m == s,
            }),
    {
        match self {
            StrandError::Message(s) => s,
        }
    }
}

} // verus!
