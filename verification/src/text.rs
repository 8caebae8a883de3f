//! Character classes and scanning helpers shared by the column codecs.

use vstd::prelude::*;

verus! {

/// The sentinel text: a single `.` character, meaning "value absent".
pub open spec fn dot_seq() -> Seq<char> {
    seq!['.']
}

/// Whether a column text is exactly the absence sentinel `.`.
pub open spec fn is_dot(s: Seq<char>) -> bool {
    s == dot_seq()
}

pub open spec fn is_digit(c: char) -> bool {
    '0' <= c && c <= '9'
}

pub open spec fn digit_val(c: char) -> nat {
    (c as nat - '0' as nat) as nat
}

pub open spec fn all_digits(s: Seq<char>) -> bool {
    forall|i: int| 0 <= i < s.len() ==> is_digit(#[trigger] s[i])
}

/// A non-empty run of decimal digits.
pub open spec fn is_digits(s: Seq<char>) -> bool {
    s.len() > 0 && all_digits(s)
}

pub open spec fn is_sign(c: char) -> bool {
    c == '+' || c == '-'
}

/// Tests whether a column text is exactly the absence sentinel `.`.
pub fn text_is_dot(s: &str) -> (b: bool)
    ensures
        b == is_dot(s@),
{
    proof {
        reveal_strlit(".");
    }
    let n = s.unicode_len();
    if n != 1 {
        proof {
            assert(dot_seq().len() == 1);
        }
        false
    } else {
        let c = s.get_char(0);
        proof {
            assert(s@ =~= dot_seq() <==> s@[0] == '.');
        }
        c == '.'
    }
}

/// Tests whether every character of `s@` in `[from, to)` is a decimal digit.
pub fn digits_in_range(s: &str, from: usize, to: usize) -> (b: bool)
    requires
        from <= to <= s@.len(),
    ensures
        b == all_digits(s@.subrange(from as int, to as int)),
{
    let ghost sub = s@.subrange(from as int, to as int);
    let mut i = from;
    while i < to
        invariant
            from <= i <= to <= s@.len(),
            sub == s@.subrange(from as int, to as int),
            forall|j: int| from <= j < i ==> is_digit(#[trigger] s@[j]),
        decreases to - i,
    {
        let c = s.get_char(i);
        if !('0' <= c && c <= '9') {
            proof {
                assert(sub[i - from] == s@[i as int]);
            }
            return false;
        }
        i = i + 1;
    }
    proof {
        assert forall|k: int| 0 <= k < sub.len() implies is_digit(#[trigger] sub[k]) by {
            assert(sub[k] == s@[from + k]);
        }
    }
    true
}

} // verus!
