//! Score column codec.
//!
//! A score column is either the sentinel `.` (score absent) or a
//! floating-point literal in standard decimal notation, optionally with an
//! exponent part. A present score keeps its textual form: the text is
//! validated against the literal grammar on decode and emitted unchanged on
//! encode, so a decoded score always re-encodes to text that re-parses to the
//! same numeric value. NaN and infinity have no literal in the format, so a
//! [`Score`] can never hold them.

use vstd::prelude::*;

use crate::errors::{DecodeErr, DecodeError};
use crate::text::{digits_in_range, dot_seq, is_digit, is_digits, is_dot, is_sign, text_is_dot};

verus! {

/// Whether splitting `s` at the `.` at position `i` yields a well-formed
/// mantissa: digits on the left with optional digits on the right, or no left
/// part and digits on the right.
pub open spec fn is_mantissa_split(s: Seq<char>, i: int) -> bool {
    let before = s.take(i);
    let after = s.skip(i + 1);
    (is_digits(before) && (after.len() == 0 || is_digits(after))) || (before.len() == 0
        && is_digits(after))
}

/// A mantissa: `digits`, `digits.`, `digits.digits`, or `.digits`.
pub open spec fn is_mantissa(s: Seq<char>) -> bool {
    is_digits(s) || exists|i: int|
        0 <= i < s.len() && s[i] == '.' && is_mantissa_split(s, i)
}

pub open spec fn is_exp_marker(c: char) -> bool {
    c == 'e' || c == 'E'
}

/// What may follow the exponent marker: an optionally signed run of digits.
pub open spec fn is_exp_suffix(s: Seq<char>) -> bool {
    is_digits(s) || (s.len() > 0 && is_sign(s[0]) && is_digits(s.skip(1)))
}

/// An unsigned float literal: a mantissa, optionally followed by an exponent
/// marker and an exponent.
pub open spec fn is_unsigned_float(s: Seq<char>) -> bool {
    is_mantissa(s) || exists|i: int|
        0 <= i < s.len() && is_exp_marker(s[i]) && is_mantissa(s.take(i)) && is_exp_suffix(
            s.skip(i + 1),
        )
}

/// A float literal in standard decimal notation: an unsigned float literal,
/// optionally preceded by a sign.
pub open spec fn is_float_lit(s: Seq<char>) -> bool {
    is_unsigned_float(s) || (s.len() > 0 && is_sign(s[0]) && is_unsigned_float(s.skip(1)))
}

/// A mantissa consists of digits and at most one dot.
proof fn lemma_mantissa_chars(m: Seq<char>)
    requires
        is_mantissa(m),
    ensures
        forall|k: int| 0 <= k < m.len() ==> is_digit(#[trigger] m[k]) || m[k] == '.',
{
    if !is_digits(m) {
        let i = choose|i: int| 0 <= i < m.len() && m[i] == '.' && is_mantissa_split(m, i);
        assert forall|k: int| 0 <= k < m.len() implies is_digit(#[trigger] m[k]) || m[k]
            == '.' by {
            if k < i {
                assert(m.take(i)[k] == m[k]);
                assert(is_digits(m.take(i)));
            } else if k > i {
                assert(m.skip(i + 1)[k - i - 1] == m[k]);
                assert(is_digits(m.skip(i + 1)));
            }
        }
    }
}

/// Nothing that starts with a sign is an unsigned float literal.
proof fn lemma_unsigned_float_no_sign(s: Seq<char>)
    requires
        s.len() > 0,
        is_sign(s[0]),
    ensures
        !is_unsigned_float(s),
{
    if is_unsigned_float(s) {
        if is_mantissa(s) {
            lemma_mantissa_chars(s);
            assert(is_digit(s[0]) || s[0] == '.');
        } else {
            let i = choose|i: int|
                0 <= i < s.len() && is_exp_marker(s[i]) && is_mantissa(s.take(i)) && is_exp_suffix(
                    s.skip(i + 1),
                );
            if i == 0 {
                assert(is_exp_marker(s[0]));
            } else {
                lemma_mantissa_chars(s.take(i));
                assert(s.take(i)[0] == s[0]);
                assert(is_digit(s[0]) || s[0] == '.');
            }
        }
    }
}

/// The sentinel `.` is not a float literal, so the two cases of an accepted
/// score column never overlap.
pub proof fn lemma_dot_not_float()
    ensures
        !is_float_lit(dot_seq()),
{
    let s = dot_seq();
    assert(s.len() == 1 && s[0] == '.');
    if is_unsigned_float(s) {
        if is_mantissa(s) {
            assert(!is_digit('.'));
            if !is_digits(s) {
                let i = choose|i: int| 0 <= i < s.len() && s[i] == '.' && is_mantissa_split(s, i);
                assert(i == 0);
                assert(s.take(0).len() == 0);
                assert(s.skip(1).len() == 0);
                assert(!is_digits(s.skip(1)));
            }
        } else {
            let i = choose|i: int|
                0 <= i < s.len() && is_exp_marker(s[i]) && is_mantissa(s.take(i)) && is_exp_suffix(
                    s.skip(i + 1),
                );
            assert(i == 0 && !is_exp_marker('.'));
        }
    }
    assert(!is_sign('.'));
}

/// Finds the first occurrence of `c1` or `c2` in `s@` within `[from, to)`.
fn find_first(s: &str, from: usize, to: usize, c1: char, c2: char) -> (r: Option<usize>)
    requires
        from <= to <= s@.len(),
    ensures
        match r {
            Some(i) => from <= i < to && (s@[i as int] == c1 || s@[i as int] == c2) && forall|
                j: int,
            |
                from <= j < i ==> s@[j] != c1 && s@[j] != c2,
            None => forall|j: int| from <= j < to ==> s@[j] != c1 && s@[j] != c2,
        },
{
    let mut i = from;
    while i < to
        invariant
            from <= i <= to <= s@.len(),
            forall|j: int| from <= j < i ==> s@[j] != c1 && s@[j] != c2,
        decreases to - i,
    {
        let c = s.get_char(i);
        if c == c1 || c == c2 {
            return Some(i);
        }
        i = i + 1;
    }
    None
}

/// Tests `is_digits` on the slice of `s@` within `[from, to)`.
fn is_digits_range(s: &str, from: usize, to: usize) -> (b: bool)
    requires
        from <= to <= s@.len(),
    ensures
        b == is_digits(s@.subrange(from as int, to as int)),
{
    from < to && digits_in_range(s, from, to)
}

/// Tests `is_mantissa` on the slice of `s@` within `[from, to)`.
fn is_mantissa_range(s: &str, from: usize, to: usize) -> (b: bool)
    requires
        from <= to <= s@.len(),
    ensures
        b == is_mantissa(s@.subrange(from as int, to as int)),
{
    let ghost sub = s@.subrange(from as int, to as int);
    match find_first(s, from, to, '.', '.') {
        None => {
            let b = is_digits_range(s, from, to);
            proof {
                if !b {
                    assert forall|j: int| 0 <= j < sub.len() implies #[trigger] sub[j] != '.' by {
                        assert(sub[j] == s@[from + j]);
                    }
                }
            }
            b
        },
        Some(i) => {
            let ghost di = i - from;
            let before_ok = is_digits_range(s, from, i);
            let after_empty = i + 1 == to;
            let after_ok = if i + 1 <= to {
                is_digits_range(s, i + 1, to)
            } else {
                false
            };
            let b = (before_ok && (after_empty || after_ok)) || (from == i && after_ok);
            proof {
                assert(sub[di] == s@[i as int]);
                assert(sub.take(di) =~= s@.subrange(from as int, i as int));
                assert(sub.skip(di + 1) =~= s@.subrange(i + 1, to as int));
                if b {
                    assert(is_mantissa_split(sub, di));
                } else {
                    assert(!is_digits(sub));
                    assert forall|j: int|
                        0 <= j < sub.len() && sub[j] == '.' implies !is_mantissa_split(
                        sub,
                        j,
                    ) by {
                        assert(sub[j] == s@[from + j]);
                        if j < di {
                            assert(s@[from + j] != '.');
                        } else if j == di {
                            assert(!is_mantissa_split(sub, di));
                        } else {
                            assert(sub.take(j)[di] == '.');
                            assert(!is_digits(sub.take(j)));
                            assert(sub.take(j).len() == j);
                        }
                    }
                }
            }
            b
        },
    }
}

/// Tests `is_exp_suffix` on the slice of `s@` within `[from, to)`.
fn is_exp_suffix_range(s: &str, from: usize, to: usize) -> (b: bool)
    requires
        from <= to <= s@.len(),
    ensures
        b == is_exp_suffix(s@.subrange(from as int, to as int)),
{
    let ghost sub = s@.subrange(from as int, to as int);
    if from == to {
        false
    } else {
        let c = s.get_char(from);
        proof {
            assert(sub[0] == s@[from as int]);
        }
        if c == '+' || c == '-' {
            let b = is_digits_range(s, from + 1, to);
            proof {
                assert(sub.skip(1) =~= s@.subrange(from + 1, to as int));
                assert(!is_digit(sub[0]));
            }
            b
        } else {
            let b = is_digits_range(s, from, to);
            proof {
                assert(!is_sign(sub[0]));
            }
            b
        }
    }
}

/// Tests `is_unsigned_float` on the slice of `s@` within `[from, to)`.
fn is_unsigned_float_range(s: &str, from: usize, to: usize) -> (b: bool)
    requires
        from <= to <= s@.len(),
    ensures
        b == is_unsigned_float(s@.subrange(from as int, to as int)),
{
    let ghost sub = s@.subrange(from as int, to as int);
    match find_first(s, from, to, 'e', 'E') {
        None => {
            let b = is_mantissa_range(s, from, to);
            proof {
                if !b {
                    assert forall|j: int| 0 <= j < sub.len() implies !is_exp_marker(
                        #[trigger] sub[j],
                    ) by {
                        assert(sub[j] == s@[from + j]);
                    }
                }
            }
            b
        },
        Some(i) => {
            let ghost di = i - from;
            let before_ok = is_mantissa_range(s, from, i);
            let after_ok = is_exp_suffix_range(s, i + 1, to);
            let b = before_ok && after_ok;
            proof {
                assert(sub[di] == s@[i as int]);
                assert(sub.take(di) =~= s@.subrange(from as int, i as int));
                assert(sub.skip(di + 1) =~= s@.subrange(i + 1, to as int));
                assert(is_exp_marker(sub[di]));
                assert(!is_digit(sub[di]) && sub[di] != '.');
                if is_mantissa(sub) {
                    lemma_mantissa_chars(sub);
                    assert(is_digit(sub[di]) || sub[di] == '.');
                }
                if b {
                    assert(is_unsigned_float(sub));
                } else {
                    assert forall|j: int|
                        0 <= j < sub.len() && is_exp_marker(#[trigger] sub[j]) implies !(
                    is_mantissa(sub.take(j)) && is_exp_suffix(sub.skip(j + 1))) by {
                        assert(sub[j] == s@[from + j]);
                        if j < di {
                            assert(s@[from + j] != 'e' && s@[from + j] != 'E');
                        } else if j > di {
                            if is_mantissa(sub.take(j)) {
                                lemma_mantissa_chars(sub.take(j));
                                assert(sub.take(j)[di] == sub[di]);
                                assert(is_digit(sub[di]) || sub[di] == '.');
                            }
                        }
                    }
                }
            }
            b
        },
    }
}

/// Tests whether a text is a float literal in standard decimal notation,
/// optionally signed and optionally with an exponent part.
pub fn is_float_literal(s: &str) -> (b: bool)
    ensures
        b == is_float_lit(s@),
{
    let n = s.unicode_len();
    if n == 0 {
        false
    } else {
        let c = s.get_char(0);
        if c == '+' || c == '-' {
            let b = is_unsigned_float_range(s, 1, n);
            proof {
                assert(s@.subrange(1, n as int) =~= s@.skip(1));
                lemma_unsigned_float_no_sign(s@);
            }
            b
        } else {
            let b = is_unsigned_float_range(s, 0, n);
            proof {
                assert(s@.subrange(0, n as int) =~= s@);
                assert(!is_sign(s@[0]));
            }
            b
        }
    }
}

/// A present score value: the validated text of a float literal. The numeric
/// value is whatever that literal denotes; keeping the text makes re-encoding
/// exact, and rules NaN and infinity out by construction.
#[derive(Debug, Clone, PartialEq, Eq)]
pub struct Score {
    text: String,
}

impl Score {
    /// Every score value holds the text of a float literal: both constructors
    /// ([`Score::new`] and [`decode_score`]) establish this, and nothing
    /// mutates a score.
    pub open spec fn wf(self) -> bool {
        is_float_lit(self@)
    }

    /// Validates a float literal and takes it as a score value.
    pub fn new(text: &str) -> (r: Result<Score, DecodeError>)
        ensures
            is_float_lit(text@) ==> (r matches Ok(sc) && sc@ == text@ && sc.wf()),
            !is_float_lit(text@) ==> (r matches Err(e) && e@ == (DecodeErr::InvalidScore {
                text: text@,
            })),
    {
        if is_float_literal(text) {
            Ok(Score { text: text.to_owned() })
        } else {
            Err(DecodeError::InvalidScore { text: text.to_owned() })
        }
    }

    /// The literal text this score was validated from.
    pub fn as_str(&self) -> (s: &str)
        ensures
            s@ == self@,
    {
        self.text.as_str()
    }
}

impl View for Score {
    type V = Seq<char>;

    closed spec fn view(&self) -> Seq<char> {
        self.text@
    }
}

impl DeepView for Score {
    type V = Seq<char>;

    open spec fn deep_view(&self) -> Seq<char> {
        self.view()
    }
}

/// What decoding a score column returns: absent for the sentinel, the
/// validated literal for a float literal, an error for anything else.
pub open spec fn spec_decode_score(s: Seq<char>) -> Result<Option<Seq<char>>, DecodeErr> {
    if is_dot(s) {
        Ok(None)
    } else if is_float_lit(s) {
        Ok(Some(s))
    } else {
        Err(DecodeErr::InvalidScore { text: s })
    }
}

/// What encoding a score value emits: the sentinel for an absent score, the
/// literal text otherwise.
pub open spec fn spec_encode_score(v: Option<Seq<char>>) -> Seq<char> {
    match v {
        None => dot_seq(),
        Some(t) => t,
    }
}

/// The mathematical content of an executable score decode result.
pub open spec fn score_result_view(r: Result<Option<Score>, DecodeError>) -> Result<
    Option<Seq<char>>,
    DecodeErr,
> {
    match r {
        Ok(v) => Ok(v.deep_view()),
        Err(e) => Err(e@),
    }
}

/// Decodes a score column: `.` means absent, a float literal is kept as the
/// score, and any other text is rejected.
pub fn decode_score(text: &str) -> (r: Result<Option<Score>, DecodeError>)
    ensures
        score_result_view(r) == spec_decode_score(text@),
        r matches Ok(Some(sc)) ==> sc.wf(),
{
    if text_is_dot(text) {
        Ok(None)
    } else if is_float_literal(text) {
        Ok(Some(Score { text: text.to_owned() }))
    } else {
        Err(DecodeError::InvalidScore { text: text.to_owned() })
    }
}

/// Renders a score value back to column text.
pub fn encode_score(score: &Option<Score>) -> (s: String)
    ensures
        s@ == spec_encode_score(score.deep_view()),
{
    match score {
        None => {
            proof {
                reveal_strlit(".");
                assert("."@ =~= dot_seq());
            }
            ".".to_owned()
        },
        Some(sc) => sc.text.clone(),
    }
}

/// The message-carrying error form for score diagnostics: a caller that only
/// keeps a rendered message wraps it here.
#[derive(Debug, Clone)]
pub enum ScoreError {
    Message(String),
}

impl ScoreError {
    /// Wraps a rendered diagnostic message.
    pub fn custom(msg: String) -> (e: Self)
        ensures
            e matches ScoreError::Message(m) && m == msg,
    {
        ScoreError::Message(msg)
    }

    /// The wrapped message.
    pub fn message(&self) -> (m: &String)
        ensures
            (match self {
                ScoreError::Message(s) => m == s,
            }),
    {
        match self {
            ScoreError::Message(s) => s,
        }
    }
}

/// Decoding an accepted score column, re-encoding it, and decoding again
/// yields the value the first decode produced: the canonical text of a score
/// loses nothing.
pub proof fn lemma_score_round_trip(s: Seq<char>)
    ensures
        match spec_decode_score(s) {
            Ok(v) => spec_decode_score(spec_encode_score(v)) == Ok::<
                Option<Seq<char>>,
                DecodeErr,
            >(v),
            Err(_) => true,
        },
{
}

} // verus!
