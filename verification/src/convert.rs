//! Conversion of a token's text into a typed value.

use vstd::prelude::*;
use vstd::string::*;

verus! {

/// A value type that a token's text can be converted into.
pub trait FromToken: Sized {
    /// Whether `text` denotes a value of this type.
    spec fn valid(text: Seq<char>) -> bool;

    /// Whether `text` denotes the value `v`.
    spec fn denotes(text: Seq<char>, v: Self) -> bool;

    /// Converts `text`, or returns `None` where it denotes no value.
    fn from_token(text: &str) -> (r: Option<Self>)
        ensures
            r is Some <==> Self::valid(text@),
            r matches Some(v) ==> Self::denotes(text@, v),
    ;
}

/// Whether `c` is a decimal digit.
pub open spec fn is_digit(c: char) -> bool {
    '0' <= c <= '9'
}

/// The value of the decimal digit `c`.
pub open spec fn digit_value(c: char) -> int {
    c as int - '0' as int
}

/// Whether `s` holds decimal digits only.
pub open spec fn all_digits(s: Seq<char>) -> bool {
    forall|i: int| 0 <= i < s.len() ==> is_digit(#[trigger] s[i])
}

/// The number that the decimal digits `s` write, most significant first.
pub open spec fn decimal_value(s: Seq<char>) -> int
    decreases s.len(),
{
    if s.len() == 0 {
        0
    } else {
        10 * decimal_value(s.drop_last()) + digit_value(s.last())
    }
}

/// The digits of an unsigned number: `text` without one leading plus sign.
pub open spec fn unsigned_digits(text: Seq<char>) -> Seq<char> {
    if text.len() > 0 && text[0] == '+' {
        text.drop_first()
    } else {
        text
    }
}

/// Whether `text` writes an unsigned decimal number of at most `max`: an
/// optional plus sign, then one digit or more.
pub open spec fn is_unsigned(text: Seq<char>, max: int) -> bool {
    let digits = unsigned_digits(text);
    digits.len() > 0 && all_digits(digits) && decimal_value(digits) <= max
}

/// The number that `text` writes, where `is_unsigned` holds of it.
pub open spec fn unsigned_value(text: Seq<char>) -> int {
    decimal_value(unsigned_digits(text))
}

/// Digits appended to a number never make it smaller.
pub proof fn lemma_decimal_value_grows(s: Seq<char>, k: int)
    requires
        all_digits(s),
        0 <= k <= s.len(),
    ensures
        0 <= decimal_value(s.take(k)) <= decimal_value(s),
    decreases s.len() - k,
{
    lemma_decimal_value_nonnegative(s.take(k));
    if k < s.len() {
        lemma_decimal_value_grows(s, k + 1);
        assert(s.take(k + 1).drop_last() =~= s.take(k));
        assert(s.take(k + 1).last() == s[k]);
    } else {
        assert(s.take(k) =~= s);
    }
}

/// A run of digits writes no negative number.
pub proof fn lemma_decimal_value_nonnegative(s: Seq<char>)
    requires
        all_digits(s),
    ensures
        0 <= decimal_value(s),
    decreases s.len(),
{
    if s.len() > 0 {
        lemma_decimal_value_nonnegative(s.drop_last());
    }
}

/// Reads `text` as an unsigned decimal number of at most `max`.
pub fn parse_unsigned(text: &str, max: u64) -> (r: Option<u64>)
    ensures
        r is Some <==> is_unsigned(text@, max as int),
        r matches Some(v) ==> v == unsigned_value(text@),
{
    let n: usize = text.unicode_len();
    let mut pos: usize = 0;
    if n > 0 && text.get_char(0) == '+' {
        pos = 1;
    }
    let first: usize = pos;
    if pos == n {
        return None;
    }
    let ghost digits = unsigned_digits(text@);
    let mut acc: u64 = 0;
    while pos < n
        invariant
            n == text@.len(),
            digits == unsigned_digits(text@),
            digits.len() == n - first,
            first <= pos <= n,
            first <= 1,
            forall|i: int| 0 <= i < digits.len() ==> digits[i] == text@[i + first],
            all_digits(digits.take(pos - first)),
            acc == decimal_value(digits.take(pos - first)),
            acc <= max,
        decreases n - pos,
    {
        let c = text.get_char(pos);
        if c < '0' || c > '9' {
            proof {
                assert(!is_digit(digits[pos - first]));
            }
            return None;
        }
        let d: u64 = (c as u32 - '0' as u32) as u64;
        proof {
            let k = pos - first;
            assert(digits.take(k + 1).drop_last() =~= digits.take(k));
            assert(digits.take(k + 1).last() == c);
            assert(decimal_value(digits.take(k + 1)) == 10 * acc + d);
        }
        if d > max || acc > (max - d) / 10 {
            proof {
                if all_digits(digits) {
                    lemma_decimal_value_grows(digits, pos - first + 1);
                }
            }
            return None;
        }
        acc = acc * 10 + d;
        pos = pos + 1;
    }
    proof {
        assert(digits.take(pos - first) =~= digits);
    }
    Some(acc)
}

impl FromToken for u8 {
    open spec fn valid(text: Seq<char>) -> bool {
        is_unsigned(text, u8::MAX as int)
    }

    open spec fn denotes(text: Seq<char>, v: u8) -> bool {
        Self::valid(text) && v == unsigned_value(text)
    }

    fn from_token(text: &str) -> (r: Option<u8>) {
        match parse_unsigned(text, 255) {
            Some(v) => Some(v as u8),
            None => None,
        }
    }
}

impl FromToken for u16 {
    open spec fn valid(text: Seq<char>) -> bool {
        is_unsigned(text, u16::MAX as int)
    }

    open spec fn denotes(text: Seq<char>, v: u16) -> bool {
        Self::valid(text) && v == unsigned_value(text)
    }

    fn from_token(text: &str) -> (r: Option<u16>) {
        match parse_unsigned(text, 65535) {
            Some(v) => Some(v as u16),
            None => None,
        }
    }
}

impl FromToken for u32 {
    open spec fn valid(text: Seq<char>) -> bool {
        is_unsigned(text, u32::MAX as int)
    }

    open spec fn denotes(text: Seq<char>, v: u32) -> bool {
        Self::valid(text) && v == unsigned_value(text)
    }

    fn from_token(text: &str) -> (r: Option<u32>) {
        match parse_unsigned(text, 4294967295) {
            Some(v) => Some(v as u32),
            None => None,
        }
    }
}

impl FromToken for u64 {
    open spec fn valid(text: Seq<char>) -> bool {
        is_unsigned(text, u64::MAX as int)
    }

    open spec fn denotes(text: Seq<char>, v: u64) -> bool {
        Self::valid(text) && v == unsigned_value(text)
    }

    fn from_token(text: &str) -> (r: Option<u64>) {
        parse_unsigned(text, u64::MAX)
    }
}

impl FromToken for String {
    open spec fn valid(text: Seq<char>) -> bool {
        true
    }

    open spec fn denotes(text: Seq<char>, v: String) -> bool {
        v@ == text
    }

    fn from_token(text: &str) -> (r: Option<String>) {
        Some(text.to_owned())
    }
}

} // verus!
