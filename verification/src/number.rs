//! Whole numbers as text.

use vstd::prelude::*;
use vstd::slice::slice_subrange;

use crate::text::{chars, digit, is_digit, string, Text};

verus! {

/// The digit with the given value.
pub open spec fn digit_char(value: nat) -> char {
    ('0' as u32 + value) as char
}

/// The value of a digit.
pub open spec fn digit_value(c: char) -> nat {
    (c as u32 - '0' as u32) as nat
}

/// A number in decimal, without leading zeros.
pub open spec fn decimal(n: nat) -> Text
    decreases n,
{
    if n < 10 {
        seq![digit_char(n)]
    } else {
        decimal(n / 10).push(digit_char(n % 10))
    }
}

/// A number in decimal, with a minus sign where it is negative.
pub open spec fn signed_decimal(n: int) -> Text {
    if n < 0 {
        seq!['-'] + decimal((-n) as nat)
    } else {
        decimal(n as nat)
    }
}

/// The value of a run of digits.
pub open spec fn digits_value(s: Text) -> nat
    decreases s.len(),
{
    if s.len() == 0 {
        0
    } else {
        10 * digits_value(s.drop_last()) + digit_value(s.last())
    }
}

/// Whether every character is a digit.
pub open spec fn all_digits(s: Text) -> bool {
    forall|i: int| 0 <= i < s.len() ==> is_digit(#[trigger] s[i])
}

/// The number that a piece of text writes: digits, with at most one plus sign before them.
pub open spec fn written_number(s: Text) -> Option<nat> {
    let body = if s.len() > 0 && s[0] == '+' {
        s.skip(1)
    } else {
        s
    };
    if body.len() > 0 && all_digits(body) {
        Some(digits_value(body))
    } else {
        None
    }
}

/// The number that a piece of text writes, where it is at most `limit`.
pub open spec fn number_up_to(s: Text, limit: nat) -> Option<nat> {
    match written_number(s) {
        Some(n) => if n <= limit {
            Some(n)
        } else {
            None
        },
        None => None,
    }
}

proof fn lemma_digit_char(value: nat)
    requires
        value < 10,
    ensures
        is_digit(digit_char(value)),
        digit_value(digit_char(value)) == value,
{
}

/// The decimal form of a number consists of digits, and its value is the number.
pub proof fn lemma_decimal(n: nat)
    ensures
        decimal(n).len() > 0,
        all_digits(decimal(n)),
        digits_value(decimal(n)) == n,
    decreases n,
{
    if n < 10 {
        lemma_digit_char(n);
        assert(decimal(n).drop_last() =~= Seq::<char>::empty());
        assert(digits_value(decimal(n).drop_last()) == 0);
    } else {
        lemma_decimal(n / 10);
        lemma_digit_char(n % 10);
        assert(decimal(n).drop_last() =~= decimal(n / 10));
    }
}

/// Reading back the decimal form of a number gives the number.
pub proof fn law_decimal_reads_back(n: nat)
    ensures
        written_number(decimal(n)) == Some(n),
{
    lemma_decimal(n);
    assert(is_digit(decimal(n)[0]));
}

/// Different numbers have different decimal forms.
pub proof fn law_decimal_is_injective(a: nat, b: nat)
    ensures
        decimal(a) == decimal(b) ==> a == b,
{
    lemma_decimal(a);
    lemma_decimal(b);
}

proof fn lemma_prefix_value(s: Text, n: int)
    requires
        0 <= n <= s.len(),
    ensures
        digits_value(s.take(n)) <= digits_value(s),
    decreases s.len(),
{
    if n == s.len() {
        assert(s.take(n) =~= s);
    } else {
        lemma_prefix_value(s.drop_last(), n);
        assert(s.drop_last().take(n) =~= s.take(n));
    }
}

/// The decimal form of a number.
pub fn to_decimal(n: u128) -> (r: String)
    ensures
        r@ == decimal(n as nat),
{
    let cs = decimal_chars(n);
    string(cs.as_slice())
}

fn decimal_chars(n: u128) -> (r: Vec<char>)
    ensures
        r@ == decimal(n as nat),
    decreases n,
{
    let low: u8 = (n % 10) as u8;
    let c: char = (48 + low) as char;
    if n < 10 {
        let mut out: Vec<char> = Vec::new();
        out.push(c);
        assert(out@ =~= decimal(n as nat));
        out
    } else {
        let mut out = decimal_chars(n / 10);
        out.push(c);
        out
    }
}

/// The decimal form of a signed number.
pub fn to_signed_decimal(n: i64) -> (r: String)
    ensures
        r@ == signed_decimal(n as int),
{
    if n < 0 {
        let mut out = String::new();
        out.push('-');
        let size: u128 = (0 - n as i128) as u128;
        let rest = to_decimal(size);
        out.append(rest.as_str());
        assert(out@ =~= signed_decimal(n as int));
        out
    } else {
        to_decimal(n as u128)
    }
}

/// The number that `s` writes, where it is at most `limit`.
pub fn parse_up_to(s: &str, limit: u64) -> (r: Option<u64>)
    ensures
        match r {
            Some(n) => number_up_to(s@, limit as nat) == Some(n as nat),
            None => number_up_to(s@, limit as nat) is None,
        },
{
    let a = chars(s);
    let mut from: usize = 0;
    if a.len() > 0 && a[0] == '+' {
        from = 1;
    }
    let body = slice_subrange(a.as_slice(), from, a.len());
    assert(from == 1 ==> body@ =~= s@.skip(1));
    assert(from == 0 ==> body@ =~= s@);
    if body.len() == 0 {
        return None;
    }
    let mut value: u64 = 0;
    let mut over = false;
    let mut i: usize = 0;
    assert(body@.take(0) =~= Seq::<char>::empty());
    while i < body.len()
        invariant
            i <= body@.len(),
            body@.len() > 0,
            body@ == (if s@.len() > 0 && s@[0] == '+' {
                s@.skip(1)
            } else {
                s@
            }),
            forall|j: int| 0 <= j < i ==> is_digit(#[trigger] body@[j]),
            over ==> digits_value(body@) > limit,
            !over ==> value == digits_value(body@.take(i as int)) && value <= limit,
        decreases body@.len() - i,
    {
        let c = body[i];
        if !digit(c) {
            assert(!all_digits(body@));
            return None;
        }
        let d: u128 = (c as u32 - 48) as u128;
        if !over {
            let next: u128 = value as u128 * 10 + d;
            proof {
                assert(body@.take(i + 1).drop_last() =~= body@.take(i as int));
                assert(next == digits_value(body@.take(i + 1)));
                lemma_prefix_value(body@, i + 1);
            }
            if next > limit as u128 {
                over = true;
            } else {
                value = next as u64;
            }
        }
        i = i + 1;
    }
    assert(body@.take(i as int) =~= body@);
    if over {
        None
    } else {
        Some(value)
    }
}

/// The 64-bit number that `s` writes.
pub fn parse_u64(s: &str) -> (r: Option<u64>)
    ensures
        match r {
            Some(n) => number_up_to(s@, u64::MAX as nat) == Some(n as nat),
            None => number_up_to(s@, u64::MAX as nat) is None,
        },
{
    parse_up_to(s, u64::MAX)
}

/// `s` with `fill` before it until it has at least `width` characters.
pub open spec fn padded_left(s: Text, fill: char, width: nat) -> Text
    decreases width - s.len(),
{
    if s.len() >= width {
        s
    } else {
        padded_left(seq![fill] + s, fill, width)
    }
}

/// `s` with spaces behind it until it has at least `width` characters.
pub open spec fn padded_right(s: Text, width: nat) -> Text
    decreases width - s.len(),
{
    if s.len() >= width {
        s
    } else {
        padded_right(s.push(' '), width)
    }
}

/// Pads `s` on the left to `width` characters.
pub fn pad_left(s: &str, fill: char, width: usize) -> (r: String)
    ensures
        r@ == padded_left(s@, fill, width as nat),
{
    let mut out: Vec<char> = chars(s);
    while out.len() < width
        invariant
            padded_left(out@, fill, width as nat) == padded_left(s@, fill, width as nat),
        decreases width - out@.len(),
    {
        let ghost before = out@;
        out.insert(0, fill);
        assert(out@ =~= seq![fill] + before);
    }
    string(out.as_slice())
}

/// Pads `s` with spaces on the right to `width` characters.
pub fn pad_right(s: &str, width: usize) -> (r: String)
    ensures
        r@ == padded_right(s@, width as nat),
{
    let mut out: Vec<char> = chars(s);
    while out.len() < width
        invariant
            padded_right(out@, width as nat) == padded_right(s@, width as nat),
        decreases width - out@.len(),
    {
        out.push(' ');
    }
    string(out.as_slice())
}

} // verus!
