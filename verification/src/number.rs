//! Numbers written as text.

use crate::text::{chars_of, first_of, find};
use vstd::prelude::*;
use vstd::string::StringExecFns;

verus! {

/// The character of a decimal digit.
pub open spec fn digit_char(d: int) -> char {
    (0x30 + d) as char
}

/// Whether a character is an ASCII decimal digit.
pub open spec fn is_digit(c: char) -> bool {
    0x30 <= c as int <= 0x39
}

/// The decimal digits of `n`, without leading zeros.
pub open spec fn decimal(n: nat) -> Seq<char>
    decreases n,
{
    if n < 10 {
        seq![digit_char(n as int)]
    } else {
        decimal(n / 10).push(digit_char((n % 10) as int))
    }
}

/// `i` written in decimal, with a leading `-` where it is negative.
pub open spec fn decimal_int(i: int) -> Seq<char> {
    if i < 0 {
        seq!['-'] + decimal((-i) as nat)
    } else {
        decimal(i as nat)
    }
}

fn digit_text(d: u128) -> (r: &'static str)
    requires
        d < 10,
    ensures
        r@ == seq![digit_char(d as int)],
{
    proof {
        reveal_strlit("0");
        reveal_strlit("1");
        reveal_strlit("2");
        reveal_strlit("3");
        reveal_strlit("4");
        reveal_strlit("5");
        reveal_strlit("6");
        reveal_strlit("7");
        reveal_strlit("8");
        reveal_strlit("9");
    }
    let r = if d == 0 {
        "0"
    } else if d == 1 {
        "1"
    } else if d == 2 {
        "2"
    } else if d == 3 {
        "3"
    } else if d == 4 {
        "4"
    } else if d == 5 {
        "5"
    } else if d == 6 {
        "6"
    } else if d == 7 {
        "7"
    } else if d == 8 {
        "8"
    } else {
        "9"
    };
    assert(r@ =~= seq![digit_char(d as int)]);
    r
}

/// `n` written in decimal.
pub fn unsigned_text(n: u128) -> (r: String)
    ensures
        r@ == decimal(n as nat),
    decreases n,
{
    if n < 10 {
        digit_text(n).to_owned()
    } else {
        let mut r = unsigned_text(n / 10);
        r.append(digit_text(n % 10));
        assert(r@ =~= decimal(n as nat));
        r
    }
}

/// `i` written in decimal.
pub fn signed_text(i: i64) -> (r: String)
    ensures
        r@ == decimal_int(i as int),
{
    if i < 0 {
        proof {
            reveal_strlit("-");
        }
        let mut r = "-".to_owned();
        let size: u128 = (-(i as i128)) as u128;
        r.append(unsigned_text(size).as_str());
        assert(r@ =~= decimal_int(i as int));
        r
    } else {
        unsigned_text(i as u128)
    }
}

// ---------------------------------------------------------------------------
// Reading integers
// ---------------------------------------------------------------------------

/// Whether every character of `s` is a decimal digit.
pub open spec fn all_digits(s: Seq<char>) -> bool {
    forall|i: int| 0 <= i < s.len() ==> is_digit(#[trigger] s[i])
}

/// The number that the digits of `s` write in decimal.
pub open spec fn digits_value(s: Seq<char>) -> nat
    decreases s.len(),
{
    if s.len() == 0 {
        0
    } else {
        digits_value(s.drop_last()) * 10 + (s.last() as int - 0x30) as nat
    }
}

/// `s` without a leading `+`.
pub open spec fn without_plus(s: Seq<char>) -> Seq<char> {
    if s.len() > 0 && s[0] == '+' {
        s.skip(1)
    } else {
        s
    }
}

/// The unsigned integer of at most `max` that `s` writes: an optional `+`, then
/// decimal digits, at least one.
pub open spec fn unsigned_value(s: Seq<char>, max: nat) -> Option<nat> {
    let t = without_plus(s);
    if t.len() > 0 && all_digits(t) && digits_value(t) <= max {
        Some(digits_value(t))
    } else {
        None
    }
}

/// Reads an unsigned integer of at most `max`.
pub fn parse_unsigned(text: &str, max: u64) -> (r: Option<u64>)
    ensures
        match r {
            Some(n) => unsigned_value(text@, max as nat) == Some(n as nat),
            None => unsigned_value(text@, max as nat) is None,
        },
{
    let chars = chars_of(text);
    let start: usize = if chars.len() > 0 && chars[0] == '+' {
        1
    } else {
        0
    };
    let ghost t = without_plus(text@);
    assert(t =~= text@.skip(start as int));
    if start == chars.len() {
        return None;
    }
    let mut i: usize = start;
    let mut value: u64 = 0;
    let mut fits: bool = true;
    assert(t.take(0) =~= seq![]);
    while i < chars.len()
        invariant
            chars@ == text@,
            start <= i <= chars.len(),
            t == text@.skip(start as int),
            t == without_plus(text@),
            forall|k: int| 0 <= k < i - start ==> is_digit(#[trigger] t[k]),
            fits ==> value == digits_value(t.take(i - start)) && value <= max,
            !fits ==> digits_value(t.take(i - start)) > max,
        decreases chars.len() - i,
    {
        let c = chars[i];
        assert(t[i - start] == c);
        if !(c >= '0' && c <= '9') {
            assert(!is_digit(t[i - start]));
            return None;
        }
        let ghost now = t.take(i - start + 1);
        assert(now.drop_last() =~= t.take(i - start));
        assert(now.last() == c);
        if fits {
            let next: u128 = value as u128 * 10 + (c as u128 - 0x30);
            if next <= max as u128 {
                value = next as u64;
            } else {
                fits = false;
            }
        }
        i += 1;
    }
    assert(t.take(i - start) =~= t);
    assert(all_digits(t));
    if fits {
        Some(value)
    } else {
        None
    }
}

// ---------------------------------------------------------------------------
// Literals of floating-point numbers
// ---------------------------------------------------------------------------

/// `s` without one leading sign.
pub open spec fn without_sign(s: Seq<char>) -> Seq<char> {
    if s.len() > 0 && (s[0] == '+' || s[0] == '-') {
        s.skip(1)
    } else {
        s
    }
}

/// A character with ASCII upper case made lower case.
pub open spec fn lower(c: char) -> char {
    if 'A' <= c <= 'Z' {
        (c as int + 0x20) as char
    } else {
        c
    }
}

/// Whether `s` is `word`, the case of ASCII letters aside.
pub open spec fn is_word(s: Seq<char>, word: Seq<char>) -> bool {
    s.map_values(|c: char| lower(c)) == word
}

/// The place of the exponent mark in `s`; the length of `s` where there is none.
pub open spec fn exponent_at(s: Seq<char>) -> int {
    let small = first_of(s, 'e');
    let large = first_of(s, 'E');
    if small <= large {
        small
    } else {
        large
    }
}

/// Decimal digits with at most one point among or beside them, at least one digit.
pub open spec fn is_mantissa(s: Seq<char>) -> bool {
    let at = first_of(s, '.');
    if at < s.len() {
        all_digits(s.take(at)) && all_digits(s.skip(at + 1)) && s.len() > 1
    } else {
        all_digits(s) && s.len() > 0
    }
}

/// An optional sign, then decimal digits, at least one.
pub open spec fn is_exponent(s: Seq<char>) -> bool {
    without_sign(s).len() > 0 && all_digits(without_sign(s))
}

/// A number in decimal or scientific notation, without a sign.
pub open spec fn is_plain_number(s: Seq<char>) -> bool {
    let at = exponent_at(s);
    if at < s.len() {
        is_mantissa(s.take(at)) && is_exponent(s.skip(at + 1))
    } else {
        is_mantissa(s)
    }
}

/// The literals of floating-point numbers: an optional sign, then `inf`,
/// `infinity` or `nan` in any case, or a number in decimal or scientific notation.
pub open spec fn is_float_literal(s: Seq<char>) -> bool {
    let t = without_sign(s);
    ||| is_word(t, seq!['i', 'n', 'f'])
    ||| is_word(t, seq!['i', 'n', 'f', 'i', 'n', 'i', 't', 'y'])
    ||| is_word(t, seq!['n', 'a', 'n'])
    ||| is_plain_number(t)
}

fn lower_case(c: char) -> (r: char)
    ensures
        r == lower(c),
{
    if c >= 'A' && c <= 'Z' {
        let n: u8 = c as u8;
        (n + 0x20) as char
    } else {
        c
    }
}

fn word_at(chars: &Vec<char>, from: usize, word: &Vec<char>) -> (r: bool)
    requires
        from <= chars@.len(),
    ensures
        r == is_word(chars@.skip(from as int), word@),
{
    let ghost low = chars@.skip(from as int).map_values(|c: char| lower(c));
    if chars.len() - from != word.len() {
        assert(low.len() != word@.len());
        return false;
    }
    let mut i: usize = 0;
    while i < word.len()
        invariant
            from + word.len() == chars.len(),
            i <= word@.len(),
            low == chars@.skip(from as int).map_values(|c: char| lower(c)),
            forall|k: int| 0 <= k < i ==> low[k] == word@[k],
        decreases word.len() - i,
    {
        assert(low[i as int] == lower(chars@[from + i]));
        if lower_case(chars[from + i]) != word[i] {
            return false;
        }
        i += 1;
    }
    assert(low =~= word@);
    true
}

fn digits_between(chars: &Vec<char>, from: usize, to: usize) -> (r: bool)
    requires
        from <= to <= chars@.len(),
    ensures
        r == all_digits(chars@.subrange(from as int, to as int)),
{
    let ghost s = chars@.subrange(from as int, to as int);
    let mut i: usize = from;
    while i < to
        invariant
            from <= i <= to <= chars@.len(),
            s == chars@.subrange(from as int, to as int),
            forall|k: int| 0 <= k < i - from ==> is_digit(#[trigger] s[k]),
        decreases to - i,
    {
        let c = chars[i];
        assert(s[i - from] == c);
        if !(c >= '0' && c <= '9') {
            return false;
        }
        i += 1;
    }
    true
}

fn part(chars: &Vec<char>, from: usize, to: usize) -> (r: Vec<char>)
    requires
        from <= to <= chars@.len(),
    ensures
        r@ == chars@.subrange(from as int, to as int),
{
    let mut r: Vec<char> = Vec::new();
    let mut i: usize = from;
    while i < to
        invariant
            from <= i <= to <= chars@.len(),
            r@ == chars@.subrange(from as int, i as int),
        decreases to - i,
    {
        r.push(chars[i]);
        assert(r@ =~= chars@.subrange(from as int, i + 1));
        i += 1;
    }
    r
}

fn mantissa(chars: &Vec<char>) -> (r: bool)
    ensures
        r == is_mantissa(chars@),
{
    let at: usize = find(chars, '.');
    let len: usize = chars.len();
    assert(chars@.subrange(0, len as int) =~= chars@);
    if at < len {
        assert(chars@.subrange(0, at as int) =~= chars@.take(at as int));
        assert(chars@.subrange(at + 1, len as int) =~= chars@.skip(at + 1));
        digits_between(chars, 0, at) && digits_between(chars, at + 1, len) && len > 1
    } else {
        digits_between(chars, 0, len) && len > 0
    }
}

fn exponent(chars: &Vec<char>) -> (r: bool)
    ensures
        r == is_exponent(chars@),
{
    let len: usize = chars.len();
    let from: usize = if len > 0 && (chars[0] == '+' || chars[0] == '-') {
        1
    } else {
        0
    };
    assert(chars@.subrange(from as int, len as int) =~= without_sign(chars@));
    from < len && digits_between(chars, from, len)
}

/// Whether `text` is a literal of a floating-point number.
pub fn float_literal(text: &str) -> (r: bool)
    ensures
        r == is_float_literal(text@),
{
    let chars = chars_of(text);
    let len: usize = chars.len();
    let from: usize = if len > 0 && (chars[0] == '+' || chars[0] == '-') {
        1
    } else {
        0
    };
    let ghost t = without_sign(text@);
    assert(t =~= chars@.skip(from as int));
    let inf: Vec<char> = vec!['i', 'n', 'f'];
    let infinity: Vec<char> = vec!['i', 'n', 'f', 'i', 'n', 'i', 't', 'y'];
    let nan: Vec<char> = vec!['n', 'a', 'n'];
    if word_at(&chars, from, &inf) || word_at(&chars, from, &infinity) || word_at(
        &chars,
        from,
        &nan,
    ) {
        return true;
    }
    let rest = part(&chars, from, len);
    assert(rest@ =~= t);
    let small: usize = find(&rest, 'e');
    let large: usize = find(&rest, 'E');
    let at: usize = if small <= large {
        small
    } else {
        large
    };
    if at < rest.len() {
        let head = part(&rest, 0, at);
        let tail = part(&rest, at + 1, rest.len());
        assert(head@ =~= t.take(at as int));
        assert(tail@ =~= t.skip(at + 1));
        mantissa(&head) && exponent(&tail)
    } else {
        mantissa(&rest)
    }
}

} // verus!
