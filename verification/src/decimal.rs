//! Decimal notation of 64-bit integers, written and read back.

use vstd::prelude::*;

use crate::text::{char_code, chars_of, string_of};

verus! {

/// The character of one decimal digit.
pub open spec fn digit_char(d: int) -> char {
    (48 + d) as char
}

/// Whether a character is one of `0`..`9`.
pub open spec fn is_digit(c: char) -> bool {
    48 <= c as int <= 57
}

/// The digits of a natural number, most significant first, without leading
/// zeros.
pub open spec fn digits(n: nat) -> Seq<char>
    decreases n,
{
    if n < 10 {
        seq![digit_char(n as int)]
    } else {
        digits(n / 10).push(digit_char((n % 10) as int))
    }
}

/// The decimal notation of an integer: its digits, after a minus sign when it
/// is negative.
pub open spec fn decimal(n: int) -> Seq<char> {
    if n < 0 {
        seq!['-'] + digits((-n) as nat)
    } else {
        digits(n as nat)
    }
}

/// The number that a string of digits stands for.
pub open spec fn digits_value(s: Seq<char>) -> int
    decreases s.len(),
{
    if s.len() == 0 {
        0
    } else {
        digits_value(s.drop_last()) * 10 + (s.last() as int - 48)
    }
}

/// Whether a string is one digit or more, and nothing else.
pub open spec fn all_digits(s: Seq<char>) -> bool {
    s.len() > 0 && forall|i: int| 0 <= i < s.len() ==> is_digit(#[trigger] s[i])
}

/// What an optionally signed decimal string stands for; `None` when it is not
/// one.
pub open spec fn signed_value(s: Seq<char>) -> Option<int> {
    if s.len() > 0 && (s[0] == '-' || s[0] == '+') {
        if !all_digits(s.skip(1)) {
            None
        } else if s[0] == '-' {
            Some(-digits_value(s.skip(1)))
        } else {
            Some(digits_value(s.skip(1)))
        }
    } else if all_digits(s) {
        Some(digits_value(s))
    } else {
        None
    }
}

/// The 64-bit integer that a decimal string stands for: an optional sign and
/// digits, within range.
pub open spec fn i64_value(s: Seq<char>) -> Option<i64> {
    match signed_value(s) {
        Some(n) => if i64::MIN <= n <= i64::MAX {
            Some(n as i64)
        } else {
            None
        },
        None => None,
    }
}

proof fn lemma_digits(n: nat)
    ensures
        all_digits(digits(n)),
        digits_value(digits(n)) == n,
    decreases n,
{
    let s = digits(n);
    if n < 10 {
        assert(s.drop_last() =~= Seq::<char>::empty());
        assert(digits_value(s.drop_last()) == 0);
        assert(s.last() as int == 48 + n);
    } else {
        lemma_digits(n / 10);
        assert(s.drop_last() =~= digits(n / 10));
        assert(s.last() as int == 48 + n % 10);
        assert forall|i: int| 0 <= i < s.len() implies is_digit(#[trigger] s[i]) by {
            if i < s.len() - 1 {
                assert(s[i] == digits(n / 10)[i]);
            }
        }
    }
}

/// Reading back what was written gives the number again, for every 64-bit
/// integer.
pub proof fn law_decimal_reads_back(n: i64)
    ensures
        i64_value(decimal(n as int)) == Some(n),
{
    if n < 0 {
        lemma_digits((-n) as nat);
        assert(decimal(n as int).skip(1) =~= digits((-n) as nat));
    } else {
        lemma_digits(n as nat);
        let s = decimal(n as int);
        assert(is_digit(s[0]));
    }
}

/// Different integers have different decimal notations.
pub proof fn law_decimal_distinct(a: i64, b: i64)
    requires
        a != b,
    ensures
        decimal(a as int) != decimal(b as int),
{
    law_decimal_reads_back(a);
    law_decimal_reads_back(b);
}

fn digits_of(n: u64) -> (out: Vec<char>)
    ensures
        out@ == digits(n as nat),
    decreases n,
{
    let digit: char = (48 + (n % 10) as u8) as char;
    if n < 10 {
        let mut out: Vec<char> = Vec::new();
        out.push(digit);
        out
    } else {
        let mut out = digits_of(n / 10);
        out.push(digit);
        out
    }
}

/// The decimal notation of an integer.
pub fn i64_to_string(n: i64) -> (out: String)
    ensures
        out@ == decimal(n as int),
{
    if n < 0 {
        let magnitude: u64 = (-(n as i128)) as u64;
        let tail = digits_of(magnitude);
        let mut out: Vec<char> = Vec::new();
        out.push('-');
        let mut tail = tail;
        out.append(&mut tail);
        assert(out@ =~= decimal(n as int));
        string_of(&out)
    } else {
        string_of(&digits_of(n as u64))
    }
}

proof fn lemma_value_grows(s: Seq<char>, i: int)
    requires
        0 <= i <= s.len(),
        forall|j: int| 0 <= j < s.len() ==> is_digit(#[trigger] s[j]),
    ensures
        0 <= digits_value(s.take(i)) <= digits_value(s),
    decreases s.len(),
{
    if s.len() == 0 {
        assert(s.take(i) =~= s);
    } else if i == s.len() {
        assert(s.take(i) =~= s);
        lemma_value_grows(s.drop_last(), 0);
        assert(is_digit(s.last()));
        assert(digits_value(s.drop_last()) >= 0) by {
            assert(s.drop_last().take(0) =~= Seq::<char>::empty());
        }
    } else {
        lemma_value_grows(s.drop_last(), i);
        assert(s.drop_last().take(i) =~= s.take(i));
        assert(is_digit(s.last()));
    }
}

/// The value of `chars[from..]` when it is all digits and at most `limit`.
fn value_from(chars: &Vec<char>, from: usize, limit: u64) -> (out: Option<u64>)
    requires
        from <= chars@.len(),
    ensures
        out matches Some(n) ==> all_digits(chars@.skip(from as int)) && digits_value(
            chars@.skip(from as int),
        ) == n && n <= limit,
        out is None ==> !all_digits(chars@.skip(from as int)) || digits_value(
            chars@.skip(from as int),
        ) > limit,
{
    let ghost s = chars@.skip(from as int);
    if from == chars.len() {
        return None;
    }
    let mut acc: u64 = 0;
    let mut i: usize = from;
    while i < chars.len()
        invariant
            from <= i <= chars@.len(),
            s == chars@.skip(from as int),
            acc <= limit,
            acc == digits_value(s.take(i - from)),
            forall|j: int| 0 <= j < i - from ==> is_digit(#[trigger] s[j]),
        decreases chars@.len() - i,
    {
        let code: u32 = char_code(chars[i]);
        assert(s[i - from] == chars@[i as int]);
        if code < 48 || code > 57 {
            return None;
        }
        let wide: u128 = acc as u128 * 10 + (code - 48) as u128;
        proof {
            assert(s.take(i - from + 1).drop_last() =~= s.take(i - from));
            assert(s.take(i - from + 1).last() == s[i - from]);
            assert(code == s[i - from] as int);
            assert(digits_value(s.take(i - from + 1)) == acc * 10 + (code - 48));
            assert(wide == digits_value(s.take(i - from + 1)));
        }
        if wide > limit as u128 {
            proof {
                if all_digits(s) {
                    lemma_value_grows(s, i - from + 1);
                }
            }
            return None;
        }
        acc = wide as u64;
        i += 1;
    }
    assert(s.take(s.len() as int) =~= s);
    Some(acc)
}

/// Read a 64-bit integer: an optional `+` or `-`, then digits only. `None`
/// for anything else and for what is out of range.
pub fn parse_i64(text: &str) -> (out: Option<i64>)
    ensures
        out == i64_value(text@),
{
    let chars = chars_of(text);
    let max: u64 = i64::MAX as u64;
    if chars.len() > 0 && chars[0] == '-' {
        match value_from(&chars, 1, max + 1) {
            Some(n) => {
                let negated: i128 = -(n as i128);
                Some(negated as i64)
            },
            None => None,
        }
    } else if chars.len() > 0 && chars[0] == '+' {
        match value_from(&chars, 1, max) {
            Some(n) => Some(n as i64),
            None => None,
        }
    } else {
        proof {
            assert(chars@.skip(0) =~= chars@);
        }
        match value_from(&chars, 0, max) {
            Some(n) => Some(n as i64),
            None => None,
        }
    }
}

} // verus!
