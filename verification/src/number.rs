//! Decimal codec for the generic unsigned-integer columns (start, end).

use vstd::prelude::*;

use crate::errors::{DecodeErr, DecodeError};
use crate::text::{all_digits, digit_val, is_digit, is_digits};

verus! {

/// Value of a run of decimal digits, most significant first.
pub open spec fn dec_value(s: Seq<char>) -> nat
    decreases s.len(),
{
    if s.len() == 0 {
        0
    } else {
        dec_value(s.drop_last()) * 10 + digit_val(s.last())
    }
}

/// The decimal digit character for `d < 10`.
pub open spec fn digit_char(d: nat) -> char {
    if d == 0 {
        '0'
    } else if d == 1 {
        '1'
    } else if d == 2 {
        '2'
    } else if d == 3 {
        '3'
    } else if d == 4 {
        '4'
    } else if d == 5 {
        '5'
    } else if d == 6 {
        '6'
    } else if d == 7 {
        '7'
    } else if d == 8 {
        '8'
    } else {
        '9'
    }
}

/// Canonical decimal text of `n`: no leading zeros, except for `0` itself.
pub open spec fn dec_string(n: nat) -> Seq<char>
    decreases n,
{
    if n < 10 {
        seq![digit_char(n)]
    } else {
        dec_string(n / 10).push(digit_char(n % 10))
    }
}

/// What decoding an unsigned-integer column returns: the decimal value when
/// the text is a digit run whose value fits the field, an error otherwise.
pub open spec fn spec_decode_u64(s: Seq<char>) -> Result<u64, DecodeErr> {
    if is_digits(s) && dec_value(s) <= u64::MAX {
        Ok(dec_value(s) as u64)
    } else {
        Err(DecodeErr::InvalidNumber { text: s })
    }
}

/// The mathematical content of an executable unsigned-column decode result.
pub open spec fn u64_result_view(r: Result<u64, DecodeError>) -> Result<u64, DecodeErr> {
    match r {
        Ok(v) => Ok(v),
        Err(e) => Err(e@),
    }
}

/// A digit run's value only grows when more digits follow.
proof fn lemma_dec_value_prefix_le(s: Seq<char>, j: int)
    requires
        0 <= j <= s.len(),
    ensures
        dec_value(s.take(j)) <= dec_value(s),
    decreases s.len() - j,
{
    if j == s.len() {
        assert(s.take(j) =~= s);
    } else {
        assert(s.take(j + 1).drop_last() =~= s.take(j));
        assert(s.take(j + 1).last() == s[j]);
        assert(dec_value(s.take(j + 1)) == dec_value(s.take(j)) * 10 + digit_val(s[j]));
        lemma_dec_value_prefix_le(s, j + 1);
    }
}

/// Decodes an unsigned-integer column: a non-empty run of decimal digits
/// whose value fits in 64 bits; anything else is rejected.
pub fn decode_u64(text: &str) -> (r: Result<u64, DecodeError>)
    ensures
        u64_result_view(r) == spec_decode_u64(text@),
{
    let n = text.unicode_len();
    if n == 0 {
        return Err(DecodeError::InvalidNumber { text: text.to_owned() });
    }
    let mut i: usize = 0;
    let mut acc: u64 = 0;
    while i < n
        invariant
            0 <= i <= n,
            n == text@.len(),
            all_digits(text@.take(i as int)),
            acc == dec_value(text@.take(i as int)),
        decreases n - i,
    {
        let c = text.get_char(i);
        if !('0' <= c && c <= '9') {
            assert(!is_digit(text@[i as int]));
            return Err(DecodeError::InvalidNumber { text: text.to_owned() });
        }
        let d: u64 = (c as u32 - '0' as u32) as u64;
        assert(d == digit_val(text@[i as int]));
        proof {
            assert(text@.take(i + 1).drop_last() =~= text@.take(i as int));
            assert(text@.take(i + 1).last() == text@[i as int]);
        }
        let next = match acc.checked_mul(10) {
            Some(m) => m.checked_add(d),
            None => None,
        };
        match next {
            Some(v) => {
                acc = v;
            },
            None => {
                proof {
                    assert(dec_value(text@.take(i + 1)) > u64::MAX);
                    lemma_dec_value_prefix_le(text@, i + 1);
                }
                return Err(DecodeError::InvalidNumber { text: text.to_owned() });
            },
        }
        i = i + 1;
    }
    proof {
        assert(text@.take(n as int) =~= text@);
    }
    Ok(acc)
}

/// The decimal digit text for `d < 10`.
fn digit_str(d: u64) -> (s: &'static str)
    requires
        d < 10,
    ensures
        s@ =~= seq![digit_char(d as nat)],
{
    proof {
        reveal_strlit("0");
        reveal_strlit("1");
        reveal_strlit("2");
        reveal_strlit("3");
        reveal_strlit("4");
        reveal_strlit("5");
        reveal_strlit("6");
        reveal_strlit("7");
        reveal_strlit("8");
        reveal_strlit("9");
    }
    match d {
        0 => "0",
        1 => "1",
        2 => "2",
        3 => "3",
        4 => "4",
        5 => "5",
        6 => "6",
        7 => "7",
        8 => "8",
        _ => "9",
    }
}

/// Renders an unsigned-integer column as canonical decimal text.
pub fn encode_u64(n: u64) -> (s: String)
    ensures
        s@ == dec_string(n as nat),
    decreases n,
{
    if n < 10 {
        String::from_str(digit_str(n))
    } else {
        let mut s = encode_u64(n / 10);
        s.append(digit_str(n % 10));
        proof {
            assert(dec_string((n / 10) as nat).push(digit_char((n % 10) as nat)) =~= dec_string(
                (n / 10) as nat,
            ) + seq![digit_char((n % 10) as nat)]);
        }
        s
    }
}

/// The canonical decimal text of a value is made of digits.
pub proof fn lemma_dec_string_is_digits(n: nat)
    ensures
        is_digits(dec_string(n)),
    decreases n,
{
    if n < 10 {
        assert(is_digit(digit_char(n)));
    } else {
        lemma_dec_string_is_digits(n / 10);
        assert(is_digit(digit_char(n % 10)));
        assert forall|i: int| 0 <= i < dec_string(n).len() implies is_digit(
            #[trigger] dec_string(n)[i],
        ) by {
            if i < dec_string(n / 10).len() {
                assert(dec_string(n)[i] == dec_string(n / 10)[i]);
            }
        }
    }
}

/// Rendering an unsigned-integer column and decoding it again yields the
/// value one started from.
pub proof fn lemma_u64_round_trip(n: u64)
    ensures
        spec_decode_u64(dec_string(n as nat)) == Ok::<u64, DecodeErr>(n),
{
    lemma_dec_string_is_digits(n as nat);
    lemma_dec_string_value(n as nat);
}

/// The canonical decimal text of a value decodes to that value.
proof fn lemma_dec_string_value(n: nat)
    ensures
        dec_value(dec_string(n)) == n,
    decreases n,
{
    if n < 10 {
        assert(dec_string(n).drop_last() =~= Seq::<char>::empty());
        assert(dec_string(n).last() == digit_char(n));
        assert(dec_value(Seq::<char>::empty()) == 0);
        assert(digit_val(digit_char(n)) == n);
        assert(dec_value(dec_string(n)) == 0 * 10 + digit_val(digit_char(n)));
    } else {
        lemma_dec_string_value(n / 10);
        assert(dec_string(n).drop_last() =~= dec_string(n / 10));
        assert(dec_string(n).last() == digit_char(n % 10));
        assert(digit_val(digit_char(n % 10)) == n % 10);
    }
}

} // verus!
