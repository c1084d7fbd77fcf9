//! Parsing of numeric command-line values.
//!
//! A count argument (for the line or byte bound) must be an optional
//! leading `+` followed by at least one decimal digit, and its value must
//! be positive and fit in `usize` — the strings `usize` parsing itself
//! accepts, restricted to positive values.  Anything else is rejected,
//! and the rejection carries the offending literal verbatim.

use vstd::prelude::*;

verus! {

/// `c` is a decimal digit `'0'..='9'`.
pub open spec fn is_digit(c: char) -> bool {
    48 <= c as u32 && c as u32 <= 57
}

/// Numeric value of the digit `c`.
pub open spec fn digit_val(c: char) -> nat
    recommends
        is_digit(c),
{
    (c as u32 - 48) as nat
}

/// Every character of `s` is a decimal digit.
pub open spec fn all_digits(s: Seq<char>) -> bool {
    forall|i: int| 0 <= i < s.len() ==> is_digit(#[trigger] s[i])
}

/// The number denoted by the digit string `s`, most significant digit first.
pub open spec fn str_to_nat(s: Seq<char>) -> nat
    recommends
        all_digits(s),
    decreases s.len(),
{
    if s.len() == 0 {
        0
    } else {
        str_to_nat(s.drop_last()) * 10 + digit_val(s.last())
    }
}

/// The digit portion of a count literal: everything after one optional
/// leading `+`.
pub open spec fn numeral_digits(s: Seq<char>) -> Seq<char> {
    if s.len() > 0 && s[0] == '+' {
        s.drop_first()
    } else {
        s
    }
}

/// The value a count literal denotes.
pub open spec fn literal_value(s: Seq<char>) -> nat {
    str_to_nat(numeral_digits(s))
}

/// `s` denotes a positive count that fits in `usize`: one optional
/// leading `+`, then at least one decimal digit.
pub open spec fn valid_count_literal(s: Seq<char>) -> bool {
    &&& numeral_digits(s).len() > 0
    &&& all_digits(numeral_digits(s))
    &&& 0 < literal_value(s) <= usize::MAX as nat
}

/// Appending the digit at position `i` multiplies the prefix value by ten
/// and adds that digit.
proof fn lemma_str_to_nat_step(s: Seq<char>, i: int)
    requires
        0 <= i < s.len(),
    ensures
        str_to_nat(s.take(i + 1)) == str_to_nat(s.take(i)) * 10 + digit_val(s[i]),
{
    assert(s.take(i + 1).drop_last() =~= s.take(i));
    assert(s.take(i + 1).last() == s[i]);
}

/// The value of a digit string never shrinks as the prefix grows.
proof fn lemma_str_to_nat_prefix_le(s: Seq<char>, i: int, j: int)
    requires
        0 <= i <= j <= s.len(),
    ensures
        str_to_nat(s.take(i)) <= str_to_nat(s.take(j)),
    decreases j - i,
{
    if i < j {
        lemma_str_to_nat_prefix_le(s, i, j - 1);
        lemma_str_to_nat_step(s, j - 1);
    }
}

/// Parses `val` as a positive integer.
///
/// Succeeds exactly on an optional leading `+` followed by digits whose
/// value is positive and representable as `usize`; on failure the error
/// echoes `val` itself.
pub fn parse_positive_int(val: &str) -> (r: Result<usize, String>)
    ensures
        r is Ok <==> valid_count_literal(val@),
        r is Ok ==> r->Ok_0 == literal_value(val@),
        r is Err ==> r->Err_0@ == val@,
{
    let len = val.unicode_len();
    let start: usize = if len > 0 && val.get_char(0) == '+' {
        1
    } else {
        0
    };
    let ghost digits = numeral_digits(val@);
    proof {
        if start == 1 {
            assert(digits =~= val@.skip(1));
        } else {
            assert(digits =~= val@);
        }
    }
    let mut i: usize = start;
    let mut acc: usize = 0;
    while i < len
        invariant
            len == val@.len(),
            start <= i <= len,
            digits == numeral_digits(val@),
            digits.len() == len - start,
            forall|k: int| 0 <= k < digits.len() ==> #[trigger] digits[k] == val@[k + start],
            forall|k: int| 0 <= k < i - start ==> is_digit(#[trigger] digits[k]),
            acc == str_to_nat(digits.take(i - start)),
        decreases len - i,
    {
        let c = val.get_char(i);
        proof {
            assert(digits[i - start] == val@[i as int]);
        }
        let cv = c as u32;
        if cv < 48 || cv > 57 {
            assert(!is_digit(digits[i - start]));
            return Err(String::from_str(val));
        }
        let d = (cv - 48) as usize;
        proof {
            lemma_str_to_nat_step(digits, i - start);
        }
        let next = match acc.checked_mul(10) {
            Some(m) => m.checked_add(d),
            None => None,
        };
        match next {
            Some(n) => {
                acc = n;
            },
            None => {
                proof {
                    lemma_str_to_nat_prefix_le(digits, i - start + 1, digits.len() as int);
                    assert(digits.take(digits.len() as int) =~= digits);
                }
                return Err(String::from_str(val));
            },
        }
        i = i + 1;
    }
    proof {
        assert(digits.take(digits.len() as int) =~= digits);
    }
    if acc == 0 {
        Err(String::from_str(val))
    } else {
        Ok(acc)
    }
}

} // verus!
