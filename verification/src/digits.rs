//! Numbers written with digits.
use crate::text::{chars_of, text_of};
use vstd::prelude::*;

verus! {

/// The digit of a value below sixteen.
pub open spec fn digit(value: int) -> char {
    if value == 0 {
        '0'
    } else if value == 1 {
        '1'
    } else if value == 2 {
        '2'
    } else if value == 3 {
        '3'
    } else if value == 4 {
        '4'
    } else if value == 5 {
        '5'
    } else if value == 6 {
        '6'
    } else if value == 7 {
        '7'
    } else if value == 8 {
        '8'
    } else if value == 9 {
        '9'
    } else if value == 10 {
        'a'
    } else if value == 11 {
        'b'
    } else if value == 12 {
        'c'
    } else if value == 13 {
        'd'
    } else if value == 14 {
        'e'
    } else {
        'f'
    }
}

/// The digit of a value below sixteen.
fn digit_of(value: u64) -> (r: char)
    requires
        value < 16,
    ensures
        r == digit(value as int),
{
    match value {
        0 => '0',
        1 => '1',
        2 => '2',
        3 => '3',
        4 => '4',
        5 => '5',
        6 => '6',
        7 => '7',
        8 => '8',
        9 => '9',
        10 => 'a',
        11 => 'b',
        12 => 'c',
        13 => 'd',
        14 => 'e',
        _ => 'f',
    }
}

/// The last `width` digits of `n` in base sixteen.
pub open spec fn hex_digits(n: nat, width: nat) -> Seq<char>
    decreases width,
{
    if width == 0 {
        seq![]
    } else {
        hex_digits(n / 16, (width - 1) as nat).push(digit((n % 16) as int))
    }
}

/// `n` in base sixteen, as thirty-two digits.
pub fn hex32(n: u128) -> (r: String)
    ensures
        r@ == hex_digits(n as nat, 32),
{
    let mut backwards: Vec<char> = Vec::new();
    let mut rest: u128 = n;
    let mut left: usize = 32;
    assert(hex_digits(n as nat, 32) =~= hex_digits(rest as nat, 32) + backwards@.reverse());
    while left > 0
        invariant
            left <= 32,
            hex_digits(n as nat, 32) == hex_digits(rest as nat, left as nat) + backwards@.reverse(),
        decreases left,
    {
        let low: u64 = (rest % 16) as u64;
        let ghost before = backwards@;
        let ghost whole = rest;
        backwards.push(digit_of(low));
        rest = rest / 16;
        left = left - 1;
        proof {
            assert(rest as nat == (whole as nat) / 16);
            assert(low as int == (whole as nat) % 16);
            assert(backwards@.reverse() =~= seq![digit(low as int)] + before.reverse());
            assert(hex_digits(whole as nat, (left + 1) as nat) + before.reverse() =~= hex_digits(
                rest as nat,
                left as nat,
            ) + backwards@.reverse());
        }
    }
    assert(hex_digits(rest as nat, 0) + backwards@.reverse() =~= backwards@.reverse());
    reversed(&backwards)
}

/// The characters from the last to the first.
fn reversed(chars: &Vec<char>) -> (r: String)
    ensures
        r@ == chars@.reverse(),
{
    let mut forwards: Vec<char> = Vec::new();
    let mut i: usize = chars.len();
    while i > 0
        invariant
            i <= chars.len(),
            forwards.len() == chars.len() - i,
            forall|j: int|
                0 <= j < forwards.len() ==> #[trigger] forwards@[j] == chars@[chars.len() - 1 - j],
        decreases i,
    {
        i = i - 1;
        forwards.push(chars[i]);
    }
    assert(forwards@ =~= chars@.reverse());
    assert(forwards@.subrange(0, forwards.len() as int) =~= forwards@);
    let len: usize = forwards.len();
    text_of(&forwards, 0, len)
}

/// `n` in base ten.
pub open spec fn decimal_digits(n: nat) -> Seq<char>
    decreases n,
{
    if n < 10 {
        seq![digit(n as int)]
    } else {
        decimal_digits(n / 10).push(digit((n % 10) as int))
    }
}

/// A number in base ten, with a sign where it is below zero.
pub open spec fn decimal(n: int) -> Seq<char> {
    if n < 0 {
        seq!['-'] + decimal_digits((-n) as nat)
    } else {
        decimal_digits(n as nat)
    }
}

/// `n` in base ten.
pub fn decimal_text(n: u64) -> (r: String)
    ensures
        r@ == decimal(n as int),
{
    let mut backwards: Vec<char> = Vec::new();
    let mut rest: u64 = n;
    assert(decimal_digits(n as nat) =~= decimal_digits(rest as nat) + backwards@.reverse());
    while rest >= 10
        invariant
            decimal_digits(n as nat) == decimal_digits(rest as nat) + backwards@.reverse(),
        decreases rest,
    {
        let ghost before = backwards@;
        let ghost whole = rest;
        backwards.push(digit_of(rest % 10));
        rest = rest / 10;
        proof {
            assert(backwards@.reverse() =~= seq![digit((whole % 10) as int)] + before.reverse());
            assert(decimal_digits(whole as nat) + before.reverse() =~= decimal_digits(rest as nat)
                + backwards@.reverse());
        }
    }
    let ghost before = backwards@;
    backwards.push(digit_of(rest));
    assert(backwards@.reverse() =~= seq![digit(rest as int)] + before.reverse());
    reversed(&backwards)
}

/// `n` in base ten.
pub fn signed_text(n: i64) -> (r: String)
    ensures
        r@ == decimal(n as int),
{
    if n < 0 {
        let size: u64 = (-(n as i128)) as u64;
        let mut r = String::new();
        r.push('-');
        r.push_str(decimal_text(size).as_str());
        assert(r@ =~= decimal(n as int));
        r
    } else {
        decimal_text(n as u64)
    }
}

/// Whether `c` is a digit of base ten.
pub open spec fn is_digit(c: char) -> bool {
    '0' <= c <= '9'
}

/// The value of digits of base ten.
pub open spec fn digits_value(s: Seq<char>) -> nat
    decreases s.len(),
{
    if s.len() == 0 {
        0
    } else {
        10 * digits_value(s.drop_last()) + (s.last() as nat - '0' as nat) as nat
    }
}

/// The number that digits of base ten write, at least one of them, where a byte can hold it.
pub open spec fn byte_value(digits: Seq<char>) -> Option<u8> {
    if digits.len() > 0 && (forall|i: int| 0 <= i < digits.len() ==> is_digit(#[trigger] digits[i]))
        && digits_value(digits) <= 255 {
        Some(digits_value(digits) as u8)
    } else {
        None
    }
}

/// The number that a text writes in base ten, behind at most one plus sign, where a byte can
/// hold it.
pub open spec fn byte_number(s: Seq<char>) -> Option<u8> {
    if s.len() > 0 && s[0] == '+' {
        byte_value(s.skip(1))
    } else {
        byte_value(s)
    }
}

/// A text without the sign before it, and whether the sign is a minus.
pub open spec fn without_sign(s: Seq<char>) -> (bool, Seq<char>) {
    if s.len() > 0 && s[0] == '-' {
        (true, s.skip(1))
    } else if s.len() > 0 && s[0] == '+' {
        (false, s.skip(1))
    } else {
        (false, s)
    }
}

/// The number that a text writes in base ten, behind at most one sign, where sixty-four bits can
/// hold it.
pub open spec fn signed_number(s: Seq<char>) -> Option<i64> {
    let (negative, digits) = without_sign(s);
    let value = if negative {
        -(digits_value(digits) as int)
    } else {
        digits_value(digits) as int
    };
    if digits.len() > 0 && (forall|i: int| 0 <= i < digits.len() ==> is_digit(#[trigger] digits[i]))
        && i64::MIN <= value <= i64::MAX {
        Some(value as i64)
    } else {
        None
    }
}

/// The value grows with the digits.
proof fn lemma_value_grows(s: Seq<char>, n: int)
    requires
        0 <= n <= s.len(),
    ensures
        digits_value(s.take(n)) <= digits_value(s),
    decreases s.len(),
{
    if n < s.len() {
        lemma_value_grows(s.drop_last(), n);
        assert(s.drop_last().take(n) =~= s.take(n));
    } else {
        assert(s.take(n) =~= s);
    }
}

/// The number that a text writes in base ten, where it writes one that a byte can hold.
pub fn parse_byte(s: &str) -> (r: Option<u8>)
    ensures
        r == byte_number(s@),
{
    let chars = chars_of(s);
    let start: usize = if chars.len() > 0 && chars[0] == '+' {
        1
    } else {
        0
    };
    let ghost digits = s@.skip(start as int);
    assert(start == 0 ==> digits =~= s@);
    assert(byte_number(s@) == byte_value(digits));
    if start == chars.len() {
        return None;
    }
    let mut value: u16 = 0;
    let mut i: usize = start;
    assert(digits.take(0) =~= seq![]);
    while i < chars.len()
        invariant
            start <= i <= chars.len(),
            chars@ == s@,
            digits == s@.skip(start as int),
            forall|j: int| 0 <= j < i - start ==> is_digit(#[trigger] digits[j]),
            value == digits_value(digits.take(i - start)),
            value <= 255,
            byte_number(s@) == byte_value(digits),
        decreases chars.len() - i,
    {
        let c = chars[i];
        assert(digits[i - start] == c);
        if !('0' <= c && c <= '9') {
            return None;
        }
        let low: u16 = c as u16 - '0' as u16;
        value = value * 10 + low;
        assert(digits.take(i + 1 - start).drop_last() =~= digits.take(i - start));
        assert(digits.take(i + 1 - start).last() == c);
        i = i + 1;
        if value > 255 {
            proof {
                lemma_value_grows(digits, i - start);
            }
            return None;
        }
    }
    assert(digits.take(i - start) =~= digits);
    Some(value as u8)
}

/// The number that a text writes in base ten, where it writes one that sixty-four bits can hold.
pub fn parse_signed(s: &str) -> (r: Option<i64>)
    ensures
        r == signed_number(s@),
{
    let chars = chars_of(s);
    let negative: bool = chars.len() > 0 && chars[0] == '-';
    let start: usize = if negative || (chars.len() > 0 && chars[0] == '+') {
        1
    } else {
        0
    };
    let ghost digits = s@.skip(start as int);
    assert(start == 0 ==> digits =~= s@);
    assert(without_sign(s@) == (negative, digits));
    if start == chars.len() {
        return None;
    }
    let limit: i128 = 0x8000_0000_0000_0000;
    let mut value: i128 = 0;
    let mut i: usize = start;
    assert(digits.take(0) =~= seq![]);
    while i < chars.len()
        invariant
            start <= i <= chars.len(),
            start < chars.len(),
            chars@ == s@,
            digits == s@.skip(start as int),
            without_sign(s@) == (negative, digits),
            limit == 0x8000_0000_0000_0000,
            forall|j: int| 0 <= j < i - start ==> is_digit(#[trigger] digits[j]),
            value == digits_value(digits.take(i - start)),
            0 <= value <= limit,
        decreases chars.len() - i,
    {
        let c = chars[i];
        assert(digits[i - start] == c);
        if !('0' <= c && c <= '9') {
            return None;
        }
        let low: i128 = c as i128 - '0' as i128;
        value = value * 10 + low;
        assert(digits.take(i + 1 - start).drop_last() =~= digits.take(i - start));
        assert(digits.take(i + 1 - start).last() == c);
        i = i + 1;
        if value > limit {
            proof {
                lemma_value_grows(digits, i - start);
            }
            return None;
        }
    }
    assert(digits.take(i - start) =~= digits);
    if negative {
        Some((-value) as i64)
    } else if value < limit {
        Some(value as i64)
    } else {
        None
    }
}

} // verus!
