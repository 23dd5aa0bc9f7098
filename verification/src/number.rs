//! Decimal numbers as text: writing them out and reading them back.

use vstd::prelude::*;

verus! {

/// The character that stands for the digit `d`.
pub open spec fn digit_char(d: nat) -> char
    recommends
        d < 10,
{
    (d + 48) as u8 as char
}

/// True for the ten ASCII digits.
pub open spec fn is_digit(c: char) -> bool {
    '0' <= c <= '9'
}

/// The decimal digits of `n`, most significant first, without leading zeros;
/// zero is written `0`.
pub open spec fn decimal(n: nat) -> Seq<char>
    decreases n,
{
    if n < 10 {
        seq![digit_char(n)]
    } else {
        decimal(n / 10).push(digit_char(n % 10))
    }
}

/// A possibly negative number in decimal, with a leading `-` below zero.
pub open spec fn signed_decimal(i: int) -> Seq<char> {
    if i < 0 {
        seq!['-'] + decimal((-i) as nat)
    } else {
        decimal(i as nat)
    }
}

/// The number that a run of digits denotes; leading zeros are allowed.
pub open spec fn digits_value(s: Seq<char>) -> nat
    decreases s.len(),
{
    if s.len() == 0 {
        0
    } else {
        digits_value(s.drop_last()) * 10 + (s.last() as nat - 48) as nat
    }
}

/// Every character is a digit.
pub open spec fn all_digits(s: Seq<char>) -> bool {
    forall|i: int| 0 <= i < s.len() ==> is_digit(#[trigger] s[i])
}

/// The digits of a number text, after its optional leading `+`.
pub open spec fn unsigned_body(s: Seq<char>) -> Seq<char> {
    if s.len() > 0 && s[0] == '+' {
        s.skip(1)
    } else {
        s
    }
}

/// Reads an unsigned decimal number no larger than `max`: an optional `+`,
/// then one or more digits and nothing else. Anything else, and any number
/// above `max`, is no number.
pub open spec fn parse_unsigned(s: Seq<char>, max: nat) -> Option<nat> {
    let body = unsigned_body(s);
    if body.len() > 0 && all_digits(body) && digits_value(body) <= max {
        Some(digits_value(body))
    } else {
        None
    }
}

/// A run of digits denotes at least as much as any of its prefixes.
pub proof fn lemma_digits_value_grows(s: Seq<char>, k: int)
    requires
        0 <= k <= s.len(),
        all_digits(s),
    ensures
        digits_value(s.take(k)) <= digits_value(s),
    decreases s.len() - k,
{
    if k == s.len() {
        assert(s.take(k) == s);
    } else {
        lemma_digits_value_grows(s, k + 1);
        let longer = s.take(k + 1);
        assert(longer.drop_last() == s.take(k));
    }
}

/// The character for one digit.
pub fn digit(d: u8) -> (c: char)
    requires
        d < 10,
    ensures
        c == digit_char(d as nat),
        is_digit(c),
{
    (d + 48) as char
}

/// The digit that a character stands for, if it is one.
pub fn digit_value(c: char) -> (r: Option<u8>)
    ensures
        r is Some <==> is_digit(c),
        r matches Some(d) ==> d < 10 && d == c as nat - 48,
{
    if '0' <= c && c <= '9' {
        Some((c as u32 - 48) as u8)
    } else {
        None
    }
}

/// Writes `n` in decimal.
pub fn decimal_string(n: u64) -> (s: String)
    ensures
        s@ == decimal(n as nat),
{
    // Digits come out least significant first; they are collected and then
    // written back to front.
    let mut low_first: Vec<char> = Vec::new();
    let mut m: u64 = n;
    while m >= 10
        invariant
            decimal(n as nat) == decimal(m as nat) + low_first@.reverse(),
        decreases m,
    {
        low_first.push(digit((m % 10) as u8));
        m = m / 10;
    }
    low_first.push(digit(m as u8));
    let mut s = String::new();
    let mut i: usize = low_first.len();
    while i > 0
        invariant
            i <= low_first.len(),
            low_first.len() > 0,
            s@ == low_first@.reverse().take(low_first.len() - i),
        decreases i,
    {
        i -= 1;
        s.push(low_first[i]);
    }
    s
}

/// Writes a possibly negative number in decimal.
pub fn signed_decimal_string(i: i64) -> (s: String)
    ensures
        s@ == signed_decimal(i as int),
{
    if i < 0 {
        let magnitude: u64 = ((-(i + 1)) as u64) + 1;
        let mut s = String::new();
        s.push('-');
        let digits = decimal_string(magnitude);
        s.append(digits.as_str());
        s
    } else {
        decimal_string(i as u64)
    }
}

/// Reads the unsigned decimal number in `chars[from..to]`, if it is one and
/// does not exceed `max`.
pub fn parse_bounded(chars: &Vec<char>, from: usize, to: usize, max: u64) -> (r: Option<u64>)
    requires
        from <= to <= chars.len(),
    ensures
        r is Some <==> parse_unsigned(chars@.subrange(from as int, to as int), max as nat) is Some,
        r matches Some(v) ==> parse_unsigned(chars@.subrange(from as int, to as int), max as nat)
            == Some(v as nat),
{
    let mut i: usize = from;
    if i < to && chars[i] == '+' {
        i += 1;
    }
    let start = i;
    let ghost body = unsigned_body(chars@.subrange(from as int, to as int));
    if start == to {
        return None;
    }
    let mut acc: u64 = 0;
    while i < to
        invariant
            from <= start <= i <= to <= chars.len(),
            body == chars@.subrange(start as int, to as int),
            body == unsigned_body(chars@.subrange(from as int, to as int)),
            all_digits(body.take(i - start)),
            acc == digits_value(body.take(i - start)),
            acc <= max,
        decreases to - i,
    {
        let ghost next = body.take(i - start + 1);
        proof {
            assert(next.drop_last() == body.take(i - start));
            assert(next.last() == chars@[i as int]);
        }
        match digit_value(chars[i]) {
            None => {
                return None;
            },
            Some(d) => {
                if d as u64 > max || acc > (max - d as u64) / 10 {
                    // The digits read so far already denote too much, and
                    // more digits can only add to it.
                    proof {
                        if all_digits(body) {
                            lemma_digits_value_grows(body, i - start + 1);
                        }
                    }
                    return None;
                }
                acc = acc * 10 + d as u64;
            },
        }
        i += 1;
    }
    assert(body.take(to - start) == body);
    Some(acc)
}

/// Reads a number that fits in 32 bits.
pub fn parse_u32(chars: &Vec<char>, from: usize, to: usize) -> (r: Option<u32>)
    requires
        from <= to <= chars.len(),
    ensures
        r is Some <==> parse_unsigned(chars@.subrange(from as int, to as int), u32::MAX as nat)
            is Some,
        r matches Some(v) ==> parse_unsigned(
            chars@.subrange(from as int, to as int),
            u32::MAX as nat,
        ) == Some(v as nat),
{
    match parse_bounded(chars, from, to, u32::MAX as u64) {
        Some(v) => Some(v as u32),
        None => None,
    }
}

/// Reads a number that fits in 64 bits.
pub fn parse_u64(chars: &Vec<char>, from: usize, to: usize) -> (r: Option<u64>)
    requires
        from <= to <= chars.len(),
    ensures
        r is Some <==> parse_unsigned(chars@.subrange(from as int, to as int), u64::MAX as nat)
            is Some,
        r matches Some(v) ==> parse_unsigned(
            chars@.subrange(from as int, to as int),
            u64::MAX as nat,
        ) == Some(v as nat),
{
    parse_bounded(chars, from, to, u64::MAX)
}

} // verus!
