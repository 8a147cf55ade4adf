//! Decimal integers written as text: what a string of digits denotes, and
//! verified readers for the two integer widths the protocol uses.

use vstd::prelude::*;

verus! {

/// Whether `c` is one of the ten ASCII decimal digits.
pub open spec fn is_digit(c: char) -> bool {
    '0' <= c && c <= '9'
}

/// The number a decimal digit stands for.
pub open spec fn digit_value(c: char) -> int {
    c as int - 48
}

/// Whether every character of `s` is a decimal digit.
pub open spec fn all_digits(s: Seq<char>) -> bool {
    forall|i: int| 0 <= i < s.len() ==> is_digit(#[trigger] s[i])
}

/// The number that a string of decimal digits denotes, most significant
/// digit first. The empty string denotes zero.
pub open spec fn digits_value(s: Seq<char>) -> int
    decreases s.len(),
{
    if s.len() == 0 {
        0
    } else {
        10 * digits_value(s.drop_last()) + digit_value(s.last())
    }
}

/// Whether `s` begins with `+` or `-`.
pub open spec fn has_sign(s: Seq<char>) -> bool {
    s.len() > 0 && (s[0] == '+' || s[0] == '-')
}

/// The digits of `s`: all of it but a leading sign.
pub open spec fn magnitude_digits(s: Seq<char>) -> Seq<char> {
    if has_sign(s) {
        s.skip(1)
    } else {
        s
    }
}

/// The integer that `s` denotes when it is an optional sign followed by one
/// or more decimal digits and nothing else; `None` for any other text.
pub open spec fn signed_value(s: Seq<char>) -> Option<int> {
    let digits = magnitude_digits(s);
    if digits.len() == 0 || !all_digits(digits) {
        None
    } else if s[0] == '-' {
        Some(-digits_value(digits))
    } else {
        Some(digits_value(digits))
    }
}

/// The 32-bit signed integer that `s` denotes, if it denotes one that fits.
pub open spec fn parsed_i32(s: Seq<char>) -> Option<i32> {
    match signed_value(s) {
        Some(v) => if i32::MIN <= v && v <= i32::MAX {
            Some(v as i32)
        } else {
            None
        },
        None => None,
    }
}

/// The 64-bit unsigned integer that `s` denotes, if it denotes one that
/// fits. A leading `+` is accepted, a leading `-` never is.
pub open spec fn parsed_u64(s: Seq<char>) -> Option<u64> {
    if s.len() > 0 && s[0] == '-' {
        None
    } else {
        match signed_value(s) {
            Some(v) => if v <= u64::MAX {
                Some(v as u64)
            } else {
                None
            },
            None => None,
        }
    }
}

/// The character that stands for a digit's number.
pub open spec fn digit_char(d: nat) -> char {
    (48 + d) as char
}

/// The decimal numeral of `n`: its digits, most significant first, without
/// sign or leading zeros.
pub open spec fn decimal_text(n: nat) -> Seq<char>
    decreases n,
{
    if n < 10 {
        seq![digit_char(n)]
    } else {
        decimal_text(n / 10).push(digit_char(n % 10))
    }
}

/// A numeral is one or more digits, and denotes its number.
pub proof fn lemma_decimal_text(n: nat)
    ensures
        decimal_text(n).len() > 0,
        all_digits(decimal_text(n)),
        digits_value(decimal_text(n)) == n,
    decreases n,
{
    if n < 10 {
        let text = decimal_text(n);
        assert(digits_value(text.drop_last()) == 0);
    } else {
        lemma_decimal_text(n / 10);
        let text = decimal_text(n);
        assert(text.drop_last() =~= decimal_text(n / 10));
    }
}

/// Reading a numeral gives its number back, for every number that the
/// width holds.
pub proof fn lemma_numeral_is_read(n: nat)
    ensures
        signed_value(decimal_text(n)) == Some(n as int),
        n <= i32::MAX ==> parsed_i32(decimal_text(n)) == Some(n as i32),
        n <= u64::MAX ==> parsed_u64(decimal_text(n)) == Some(n as u64),
{
    lemma_decimal_text(n);
}

/// A digit string denotes a natural number.
pub proof fn lemma_digits_value_nonnegative(s: Seq<char>)
    requires
        all_digits(s),
    ensures
        digits_value(s) >= 0,
    decreases s.len(),
{
    if s.len() > 0 {
        lemma_digits_value_nonnegative(s.drop_last());
    }
}

/// Extending a digit string never makes the number it denotes smaller.
pub proof fn lemma_digits_value_grows(s: Seq<char>, n: int)
    requires
        all_digits(s),
        0 <= n <= s.len(),
    ensures
        digits_value(s.take(n)) <= digits_value(s),
    decreases s.len() - n,
{
    if n < s.len() {
        lemma_digits_value_grows(s, n + 1);
        assert(s.take(n + 1).drop_last() =~= s.take(n));
        lemma_digits_value_nonnegative(s.take(n));
    } else {
        assert(s.take(n) =~= s);
    }
}

/// The magnitude of the digits from `from` on, capped: `Some(v)` when they
/// are all digits and denote `v <= limit`, `None` when some character is no
/// digit or the number exceeds `limit`.
fn read_magnitude(chars: &Vec<char>, from: usize, limit: u64) -> (r: Option<u64>)
    requires
        from <= chars.len(),
    ensures
        match r {
            Some(v) => all_digits(chars@.skip(from as int)) && v == digits_value(
                chars@.skip(from as int),
            ) && v <= limit,
            None => !all_digits(chars@.skip(from as int)) || digits_value(
                chars@.skip(from as int),
            ) > limit,
        },
{
    let ghost digits = chars@.skip(from as int);
    let mut acc: u64 = 0;
    let mut i: usize = from;
    while i < chars.len()
        invariant
            from <= i <= chars.len(),
            digits == chars@.skip(from as int),
            all_digits(digits.take(i - from)),
            acc == digits_value(digits.take(i - from)),
            acc <= limit,
        decreases chars.len() - i,
    {
        let c: char = chars[i];
        let ghost k: int = i - from;
        assert(digits[k] == c);
        if c < '0' || c > '9' {
            return None;
        }
        let d: u64 = (c as u32 - 48) as u64;
        proof {
            assert(digits.take(k + 1).drop_last() =~= digits.take(k));
        }
        if limit < d || acc > (limit - d) / 10 {
            proof {
                if all_digits(digits) {
                    lemma_digits_value_grows(digits, k + 1);
                }
            }
            return None;
        }
        acc = acc * 10 + d;
        i = i + 1;
    }
    proof {
        assert(digits.take(i - from) =~= digits);
    }
    Some(acc)
}

/// Reads a 32-bit signed decimal integer: an optional sign, then digits.
pub fn parse_i32(text: &str) -> (r: Option<i32>)
    ensures
        r == parsed_i32(text@),
{
    let chars = crate::text::chars_of(text);
    if chars.len() == 0 {
        return None;
    }
    let first: char = chars[0];
    let signed: bool = first == '+' || first == '-';
    let from: usize = if signed {
        1
    } else {
        0
    };
    proof {
        assert(chars@.skip(0) =~= chars@);
    }
    if from == chars.len() {
        return None;
    }
    if first == '-' {
        match read_magnitude(&chars, from, 2147483648) {
            Some(v) => {
                if v == 2147483648 {
                    Some(i32::MIN)
                } else {
                    Some(-(v as i32))
                }
            },
            None => {
                None
            },
        }
    } else {
        match read_magnitude(&chars, from, 2147483647) {
            Some(v) => Some(v as i32),
            None => {
                None
            },
        }
    }
}

/// Reads a 64-bit unsigned decimal integer: an optional `+`, then digits.
pub fn parse_u64(text: &str) -> (r: Option<u64>)
    ensures
        r == parsed_u64(text@),
{
    let chars = crate::text::chars_of(text);
    if chars.len() == 0 {
        return None;
    }
    let first: char = chars[0];
    if first == '-' {
        return None;
    }
    let from: usize = if first == '+' {
        1
    } else {
        0
    };
    proof {
        assert(chars@.skip(0) =~= chars@);
    }
    if from == chars.len() {
        return None;
    }
    let r = read_magnitude(&chars, from, u64::MAX);
    r
}

} // verus!
