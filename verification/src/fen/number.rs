//! Whole numbers written in decimal digits.

use vstd::prelude::*;
use vstd::string::*;

verus! {

/// Whether `c` is one of the digits `0` to `9`.
pub open spec fn is_digit(c: char) -> bool {
    '0' <= c <= '9'
}

/// The number that the first `n` characters of `digits` spell, each read as
/// a decimal digit.
pub open spec fn decimal(digits: Seq<char>, n: nat) -> int
    decreases n,
{
    if n == 0 {
        0
    } else {
        decimal(digits, (n - 1) as nat) * 10 + (digits[n - 1] as int - '0' as int)
    }
}

/// Whether `s` starts with a sign.
pub open spec fn has_sign(s: Seq<char>) -> bool {
    s.len() > 0 && (s[0] == '+' || s[0] == '-')
}

/// The digits of `s`: what follows its sign, or all of it if it has none.
pub open spec fn digits_of(s: Seq<char>) -> Seq<char> {
    if has_sign(s) {
        s.subrange(1, s.len() as int)
    } else {
        s
    }
}

/// The number that `s` spells: an optional `+` or `-`, then one or more
/// decimal digits and nothing else. None if `s` has another form, or if the
/// number does not fit in 32 bits.
pub open spec fn read_i32(s: Seq<char>) -> Option<i32> {
    let digits = digits_of(s);
    let size = decimal(digits, digits.len());
    let value = if has_sign(s) && s[0] == '-' {
        -size
    } else {
        size
    };
    if digits.len() > 0 && (forall|i: int| 0 <= i < digits.len() ==> is_digit(#[trigger] digits[i]))
        && i32::MIN <= value <= i32::MAX {
        Some(value as i32)
    } else {
        None
    }
}

/// With more digits the number does not get smaller.
proof fn lemma_decimal_grows(digits: Seq<char>, n: nat, m: nat)
    requires
        n <= m <= digits.len(),
        forall|i: int| 0 <= i < digits.len() ==> is_digit(#[trigger] digits[i]),
    ensures
        0 <= decimal(digits, n) <= decimal(digits, m),
    decreases m,
{
    if m > 0 {
        if n < m {
            lemma_decimal_grows(digits, n, (m - 1) as nat);
        } else {
            lemma_decimal_grows(digits, (n - 1) as nat, (m - 1) as nat);
        }
        assert(is_digit(digits[m - 1]));
    }
}

/// Reads a number of 32 bits from `text`: an optional sign, then decimal
/// digits.
pub fn parse_i32(text: &str) -> (number: Option<i32>)
    ensures
        number == read_i32(text@),
{
    let n: usize = text.unicode_len();
    if n == 0 {
        return None;
    }
    let first = text.get_char(0);
    let negative = first == '-';
    let start: usize = if first == '-' || first == '+' {
        1
    } else {
        0
    };
    if start >= n {
        return None;
    }
    let ghost digits = digits_of(text@);
    assert(digits.len() == n - start);
    assert(forall|i: int| 0 <= i < digits.len() ==> digits[i] == text@[i + start]);
    let mut size: i64 = 0;
    let mut i: usize = start;
    while i < n
        invariant
            n == text@.len(),
            start <= i <= n,
            start <= 1,
            digits == digits_of(text@),
            digits.len() == n - start,
            forall|j: int| 0 <= j < digits.len() ==> digits[j] == text@[j + start],
            forall|j: int| 0 <= j < i - start ==> is_digit(#[trigger] digits[j]),
            size == decimal(digits, (i - start) as nat),
            0 <= size <= 0x8000_0000,
        decreases n - i,
    {
        let c = text.get_char(i);
        if !(c >= '0' && c <= '9') {
            assert(!is_digit(digits[i - start]));
            return None;
        }
        let digit: i64 = (c as u32 - '0' as u32) as i64;
        size = size * 10 + digit;
        if size > 0x8000_0000 {
            proof {
                if forall|j: int| 0 <= j < digits.len() ==> is_digit(#[trigger] digits[j]) {
                    lemma_decimal_grows(digits, (i + 1 - start) as nat, digits.len());
                }
            }
            return None;
        }
        i += 1;
    }
    if negative {
        Some((-size) as i32)
    } else if size <= 0x7FFF_FFFF {
        Some(size as i32)
    } else {
        None
    }
}

} // verus!
