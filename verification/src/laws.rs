//! What holds of texts, numbers and times.

use crate::apis::metric::{MetricTarget, MetricTargetFields};
use crate::config::{drain_seconds, webhook_port};
use crate::duration::{begins, duration_from, humantime_duration, one_part, parse_duration, since};
use crate::labels::{before, text_before, Labels};
use crate::names::{NameMap, NameSet};
use crate::number::{
    all_digits, decimal, digits_value, exponent_at, float_literal, is_digit, is_mantissa, is_word,
    lower, parse_unsigned, signed_text, unsigned_text, without_plus, without_sign,
};
use crate::text::{
    contains_double, first_of, is_space, join, lemma_first_of, lemma_first_of_range, list_contains,
    only, same, space, split, split_on, split_once, split_whitespace, strip_end, strip_prefix,
    strip_start, strip_suffix, trim, trim_of, trimmed, views, word_len, words,
};
use vstd::prelude::*;

verus! {

// ---------------------------------------------------------------------------
// Whitespace
// ---------------------------------------------------------------------------

/// Of the ASCII characters the blank and the control characters from tab to carriage
/// return are whitespace, and no other.
pub proof fn law_ascii_whitespace(c: char, r: bool)
    requires
        call_ensures(space, (c,), r),
        c as u32 <= 0x7f,
    ensures
        r == (c == ' ' || c == '\t' || c == '\n' || c == '\r' || c as u32 == 0xb || c as u32 == 0xc),
{
}

proof fn lemma_strip_start_at(s: Seq<char>, drop: spec_fn(char) -> bool) -> (i: int)
    ensures
        0 <= i <= s.len(),
        strip_start(s, drop) == s.skip(i),
        forall|k: int| 0 <= k < i ==> drop(#[trigger] s[k]),
        i < s.len() ==> !drop(s[i]),
    decreases s.len(),
{
    if s.len() > 0 && drop(s[0]) {
        let rest = s.drop_first();
        let i = lemma_strip_start_at(rest, drop);
        assert(rest.skip(i) =~= s.skip(i + 1));
        assert forall|k: int| 0 <= k < i + 1 implies drop(#[trigger] s[k]) by {
            if k > 0 {
                assert(rest[k - 1] == s[k]);
            }
        }
        i + 1
    } else {
        assert(s.skip(0) =~= s);
        0
    }
}

proof fn lemma_strip_end_at(s: Seq<char>, drop: spec_fn(char) -> bool) -> (i: int)
    ensures
        0 <= i <= s.len(),
        strip_end(s, drop) == s.take(i),
        forall|k: int| i <= k < s.len() ==> drop(#[trigger] s[k]),
        i > 0 ==> !drop(s[i - 1]),
    decreases s.len(),
{
    if s.len() > 0 && drop(s.last()) {
        let rest = s.drop_last();
        let i = lemma_strip_end_at(rest, drop);
        assert(rest.take(i) =~= s.take(i));
        assert forall|k: int| i <= k < s.len() implies drop(#[trigger] s[k]) by {
            if k < rest.len() {
                assert(rest[k] == s[k]);
            }
        }
        i
    } else {
        assert(s.take(s.len() as int) =~= s);
        s.len() as int
    }
}

/// Whether `r` is what is left of `s` between `a` and `b` once the characters that `drop`
/// holds of were taken off at the two ends.
pub open spec fn stripped(
    s: Seq<char>,
    r: Seq<char>,
    drop: spec_fn(char) -> bool,
    a: int,
    b: int,
) -> bool {
    &&& 0 <= a <= b <= s.len()
    &&& r == s.subrange(a, b)
    &&& forall|k: int| 0 <= k < a ==> drop(#[trigger] s[k])
    &&& forall|k: int| b <= k < s.len() ==> drop(#[trigger] s[k])
    &&& a < b ==> !drop(s[a]) && !drop(s[b - 1])
}

/// Whether `r` is `s` from `a` to `b`, with all whitespace taken off its ends.
pub open spec fn without_blanks(s: Seq<char>, r: Seq<char>, a: int, b: int) -> bool {
    stripped(s, r, |c: char| is_space(c), a, b)
}

/// Whether `r` is `s` from `a` to `b`, with every `mark` taken off its ends.
pub open spec fn without_marks(s: Seq<char>, r: Seq<char>, mark: char, a: int, b: int) -> bool {
    stripped(s, r, |c: char| c == mark, a, b)
}

proof fn lemma_stripped(s: Seq<char>, drop: spec_fn(char) -> bool) -> (ends: (int, int))
    ensures
        stripped(s, strip_end(strip_start(s, drop), drop), drop, ends.0, ends.1),
{
    let a = lemma_strip_start_at(s, drop);
    let t = s.skip(a);
    let n = lemma_strip_end_at(t, drop);
    let b = a + n;
    assert(t.take(n) =~= s.subrange(a, b));
    assert forall|k: int| b <= k < s.len() implies drop(#[trigger] s[k]) by {
        assert(t[k - a] == s[k]);
    }
    if a < b {
        assert(t[n - 1] == s[b - 1]);
    }
    (a, b)
}

/// The ends between which a text stands once it is trimmed.
pub proof fn lemma_trimmed(s: Seq<char>) -> (ends: (int, int))
    ensures
        without_blanks(s, trimmed(s), ends.0, ends.1),
{
    lemma_stripped(s, |c: char| is_space(c))
}

/// Trimming takes whitespace off the two ends of a text, all of it, and nothing else.
pub proof fn law_trim(text: &str, r: &str)
    requires
        call_ensures(trim, (text,), r),
    ensures
        exists|a: int, b: int| #[trigger] without_blanks(text@, r@, a, b),
{
    let ends = lemma_stripped(text@, |c: char| is_space(c));
    assert(without_blanks(text@, r@, ends.0, ends.1));
}

/// Trimming a mark takes that mark off the two ends of a text, wherever it stands there,
/// and nothing else.
pub proof fn law_trim_of(text: &str, mark: char, r: &str)
    requires
        call_ensures(trim_of, (text, mark), r),
    ensures
        exists|a: int, b: int| #[trigger] without_marks(text@, r@, mark, a, b),
{
    let drop = |c: char| c == mark;
    let ends = lemma_stripped(text@, only(mark));
    assert(stripped(text@, r@, drop, ends.0, ends.1)) by {
        assert forall|k: int| 0 <= k < ends.0 implies drop(#[trigger] text@[k]) by {
            assert(only(mark)(text@[k]));
        }
        assert forall|k: int| ends.1 <= k < text@.len() implies drop(#[trigger] text@[k]) by {
            assert(only(mark)(text@[k]));
        }
        if ends.0 < ends.1 {
            assert(!only(mark)(text@[ends.0]) && !only(mark)(text@[ends.1 - 1]));
        }
    }
    assert(without_marks(text@, r@, mark, ends.0, ends.1));
}

// ---------------------------------------------------------------------------
// Splitting and joining
// ---------------------------------------------------------------------------

/// A text that ends in `sep` and a tail without `sep` has one piece more than the text
/// before, the tail.
pub proof fn lemma_split_more(s: Seq<char>, sep: char, tail: Seq<char>)
    requires
        !tail.contains(sep),
    ensures
        split_on(s.push(sep) + tail, sep) == split_on(s, sep).push(tail),
    decreases s.len(),
{
    let whole = s.push(sep) + tail;
    let at = first_of(s, sep);
    lemma_first_of_range(s, sep);
    assert forall|j: int| 0 <= j < at implies whole[j] != sep by {
        assert(whole[j] == s[j]);
    }
    assert(whole[at] == sep);
    lemma_first_of(whole, sep, at);
    assert(whole.take(at) =~= s.take(at));
    if at < s.len() {
        let rest = s.skip(at + 1);
        assert(whole.skip(at + 1) =~= rest.push(sep) + tail);
        lemma_split_more(rest, sep, tail);
        assert(split_on(whole, sep) =~= split_on(s, sep).push(tail));
    } else {
        assert(whole.skip(at + 1) =~= tail);
        lemma_split_one(tail, sep);
        assert(s.take(at) =~= s);
        assert(split_on(whole, sep) =~= split_on(s, sep).push(tail));
    }
}

/// A text without `sep` is one piece.
pub proof fn lemma_split_one(s: Seq<char>, sep: char)
    requires
        !s.contains(sep),
    ensures
        split_on(s, sep) == seq![s],
{
    assert forall|j: int| 0 <= j < s.len() implies s[j] != sep by {
        if s[j] == sep {
            assert(s.contains(sep));
        }
    }
    lemma_first_of(s, sep, s.len() as int);
}

/// A text without the separator is one piece, and what follows one more separator is one
/// more piece.
pub proof fn law_split(
    text: &str,
    more: &str,
    sep: char,
    tail: Seq<char>,
    a: Vec<String>,
    b: Vec<String>,
)
    requires
        call_ensures(split, (text, sep), a),
        call_ensures(split, (more, sep), b),
        more@ == text@.push(sep) + tail,
        !tail.contains(sep),
    ensures
        !text@.contains(sep) ==> a@.len() == 1 && a@[0]@ == text@,
        b@.len() == a@.len() + 1,
        forall|i: int| 0 <= i < a@.len() ==> (#[trigger] b@[i])@ == a@[i]@,
        b@.last()@ == tail,
{
    lemma_split_more(text@, sep, tail);
    assert(views(a@).len() == a@.len());
    assert(views(b@).len() == b@.len());
    if !text@.contains(sep) {
        lemma_split_one(text@, sep);
        assert(views(a@)[0] == a@[0]@);
    }
    assert forall|i: int| 0 <= i < a@.len() implies (#[trigger] b@[i])@ == a@[i]@ by {
        assert(views(a@)[i] == a@[i]@);
        assert(views(b@)[i] == b@[i]@);
    }
    assert(views(b@)[a@.len() as int] == b@[a@.len() as int]@);
}

/// Joined texts stand one after the other, with the separator between two of them.
pub proof fn law_join(parts: &Vec<String>, more: &Vec<String>, sep: &str, a: String, b: String)
    requires
        call_ensures(join, (parts, sep), a),
        call_ensures(join, (more, sep), b),
        more@.len() > 0,
        parts@ == more@.drop_last(),
    ensures
        parts@.len() == 0 ==> a@.len() == 0 && b@ == more@.last()@,
        parts@.len() > 0 ==> b@ == a@ + sep@ + more@.last()@,
{
    assert(views(more@).drop_last() =~= views(parts@));
    assert(views(more@).last() == more@.last()@);
    assert(views(parts@).len() == parts@.len());
}

pub proof fn lemma_words_joined(a: Seq<char>, b: Seq<char>)
    requires
        a.len() == 0 || b.len() == 0 || is_space(a.last()) || is_space(b[0]),
    ensures
        words(a + b) == words(a) + words(b),
    decreases a.len(),
{
    let s = a + b;
    if a.len() == 0 {
        assert(s =~= b);
        assert(words(a) + words(b) =~= words(b));
    } else if is_space(a[0]) {
        let rest = a.drop_first();
        lemma_word_len_is(s, 0);
        lemma_word_len_is(a, 0);
        assert(s.drop_first() =~= rest + b);
        lemma_words_joined(rest, b);
    } else {
        let n = lemma_word_len_range(a);
        assert(n > 0);
        assert forall|j: int| 0 <= j < n implies !is_space(#[trigger] s[j]) by {
            assert(s[j] == a[j]);
        }
        if n < a.len() {
            assert(s[n] == a[n]);
        } else if b.len() > 0 {
            assert(!is_space(a[a.len() - 1]));
            assert(s[n] == b[0]);
        }
        lemma_word_len_is(s, n);
        let rest = a.skip(n);
        assert(s.take(n) =~= a.take(n));
        assert(s.skip(n) =~= rest + b);
        lemma_words_joined(rest, b);
        assert(words(s) =~= words(a) + words(b));
    }
}

proof fn lemma_word_len_is(s: Seq<char>, i: int)
    requires
        0 <= i <= s.len(),
        forall|j: int| 0 <= j < i ==> !is_space(#[trigger] s[j]),
        i < s.len() ==> is_space(s[i]),
    ensures
        word_len(s) == i,
    decreases s.len(),
{
    if i > 0 {
        assert(!is_space(s[0]));
        let rest = s.drop_first();
        assert forall|j: int| 0 <= j < i - 1 implies !is_space(#[trigger] rest[j]) by {
            assert(rest[j] == s[j + 1]);
        }
        lemma_word_len_is(rest, i - 1);
    }
}

proof fn lemma_word_len_range(s: Seq<char>) -> (n: int)
    ensures
        n == word_len(s),
        0 <= n <= s.len(),
        forall|j: int| 0 <= j < n ==> !is_space(#[trigger] s[j]),
        n < s.len() ==> is_space(s[n]),
        s.len() > 0 && !is_space(s[0]) ==> n > 0,
    decreases s.len(),
{
    if s.len() > 0 && !is_space(s[0]) {
        let rest = s.drop_first();
        let n = lemma_word_len_range(rest);
        assert forall|j: int| 0 <= j < n + 1 implies !is_space(#[trigger] s[j]) by {
            if j > 0 {
                assert(rest[j - 1] == s[j]);
            }
        }
        if n < rest.len() {
            assert(rest[n] == s[n + 1]);
        }
        n + 1
    } else {
        0
    }
}

/// Whether a text is one word: not empty, and without whitespace.
pub open spec fn is_word_of(s: Seq<char>) -> bool {
    s.len() > 0 && forall|i: int| 0 <= i < s.len() ==> !is_space(#[trigger] s[i])
}

/// Whether a text is whitespace.
pub open spec fn is_blank(s: Seq<char>) -> bool {
    forall|i: int| 0 <= i < s.len() ==> is_space(#[trigger] s[i])
}

pub proof fn lemma_one_word(s: Seq<char>)
    requires
        is_word_of(s),
    ensures
        words(s) == seq![s],
{
    lemma_word_len_is(s, s.len() as int);
    assert(s.take(s.len() as int) =~= s);
    assert(s.skip(s.len() as int) =~= seq![]);
    assert(words(seq![]) =~= seq![]);
    assert(words(s) =~= seq![s]);
}

pub proof fn lemma_no_words(s: Seq<char>)
    requires
        is_blank(s),
    ensures
        words(s) == Seq::<Seq<char>>::empty(),
    decreases s.len(),
{
    if s.len() > 0 {
        assert(is_space(s[0]));
        lemma_word_len_is(s, 0);
        let rest = s.drop_first();
        assert forall|i: int| 0 <= i < rest.len() implies is_space(#[trigger] rest[i]) by {
            assert(rest[i] == s[i + 1]);
        }
        lemma_no_words(rest);
    }
}

/// The words of a text are its runs without whitespace: blank text has none, and a word
/// that stands between whitespace is one of them, in its place.
pub proof fn law_words(
    head: &str,
    tail: &str,
    text: &str,
    word: Seq<char>,
    a: Vec<String>,
    b: Vec<String>,
    r: Vec<String>,
)
    requires
        call_ensures(split_whitespace, (head,), a),
        call_ensures(split_whitespace, (tail,), b),
        call_ensures(split_whitespace, (text,), r),
        is_word_of(word),
        head@.len() == 0 || is_space(head@.last()),
        tail@.len() == 0 || is_space(tail@[0]),
        text@ == head@ + word + tail@,
    ensures
        is_blank(head@) ==> a@.len() == 0,
        r@.len() == a@.len() + 1 + b@.len(),
        forall|i: int| 0 <= i < a@.len() ==> (#[trigger] r@[i])@ == a@[i]@,
        r@[a@.len() as int]@ == word,
        forall|i: int| 0 <= i < b@.len() ==> r@[a@.len() + 1 + i]@ == (#[trigger] b@[i])@,
{
    lemma_words_joined(head@, word);
    lemma_words_joined(head@ + word, tail@);
    lemma_one_word(word);
    if is_blank(head@) {
        lemma_no_words(head@);
    }
    let all = words(head@) + seq![word] + words(tail@);
    assert(views(r@) == all);
    assert(views(a@).len() == a@.len());
    assert(views(b@).len() == b@.len());
    assert(views(r@).len() == r@.len());
    assert forall|i: int| 0 <= i < a@.len() implies (#[trigger] r@[i])@ == a@[i]@ by {
        assert(views(r@)[i] == r@[i]@);
        assert(views(a@)[i] == a@[i]@);
    }
    assert(views(r@)[a@.len() as int] == r@[a@.len() as int]@);
    assert forall|i: int| 0 <= i < b@.len() implies r@[a@.len() + 1 + i]@ == (
    #[trigger] b@[i])@ by {
        assert(views(r@)[a@.len() + 1 + i] == r@[a@.len() + 1 + i]@);
        assert(views(b@)[i] == b@[i]@);
    }
}

/// A text is cut at its first separator, where it holds one.
pub proof fn law_split_once(text: &str, sep: char, r: Option<(&str, &str)>)
    requires
        call_ensures(split_once, (text, sep), r),
    ensures
        match r {
            Some(parts) => text@ == parts.0@.push(sep) + parts.1@ && !parts.0@.contains(sep),
            None => !text@.contains(sep),
        },
{
    lemma_first_of_range(text@, sep);
    let at = first_of(text@, sep);
    match r {
        Some(parts) => {
            assert(text@ =~= parts.0@.push(sep) + parts.1@);
            if parts.0@.contains(sep) {
                let j = choose|j: int| 0 <= j < parts.0@.len() && parts.0@[j] == sep;
                assert(text@[j] == sep);
            }
        },
        None => {},
    }
}

/// What follows a prefix, or stands before a suffix, makes up the text with it. It is
/// there where the text begins, or ends, with that.
pub proof fn law_strip(
    text: &str,
    part: &str,
    rest: Seq<char>,
    after: Option<&str>,
    before: Option<&str>,
)
    requires
        call_ensures(strip_prefix, (text, part), after),
        call_ensures(strip_suffix, (text, part), before),
    ensures
        after matches Some(r) ==> text@ == part@ + r@,
        text@ == part@ + rest ==> (after matches Some(r) && r@ == rest),
        before matches Some(r) ==> text@ == r@ + part@,
        text@ == rest + part@ ==> (before matches Some(r) && r@ == rest),
{
    let n = part@.len() as int;
    if after is Some {
        assert(text@ =~= part@ + text@.skip(n));
    }
    if text@ == part@ + rest {
        assert(text@.take(n) =~= part@);
        assert(text@.skip(n) =~= rest);
    }
    if before is Some {
        assert(text@ =~= text@.take(text@.len() - n) + part@);
    }
    if text@ == rest + part@ {
        assert(text@.skip(text@.len() - n) =~= part@);
        assert(text@.take(text@.len() - n) =~= rest);
    }
}

/// A character stands twice in a row where the text has it before and after some place.
pub proof fn law_double(head: Seq<char>, tail: Seq<char>, c: char, chars: &Vec<char>, r: bool)
    requires
        call_ensures(contains_double, (chars, c), r),
    ensures
        chars@ == head.push(c).push(c) + tail ==> r,
        !chars@.contains(c) ==> !r,
        r ==> exists|i: int| 0 <= i < chars@.len() - 1 && #[trigger] chars@[i] == c && chars@[i + 1]
            == c,
{
    let n = head.len() as int;
    if chars@ == head.push(c).push(c) + tail {
        assert(chars@[n] == c && chars@[n + 1] == c);
    }
}

// ---------------------------------------------------------------------------
// Numbers
// ---------------------------------------------------------------------------

/// A number grows by a decimal place with each digit that is written behind it, and what
/// holds another character is no number.
pub proof fn law_numbers_are_decimal(
    text: &str,
    more: &str,
    d: char,
    max: u64,
    a: Option<u64>,
    b: Option<u64>,
)
    requires
        call_ensures(parse_unsigned, (text, max), a),
        call_ensures(parse_unsigned, (more, max), b),
        more@ == text@.push(d),
    ensures
        text@.len() == 0 ==> a is None,
        '0' <= d <= '9' && text@.len() == 0 && d as int - '0' as int <= max ==> b == Some(
            (d as int - '0' as int) as u64,
        ),
        a is Some ==> a->0 <= max,
        a is Some && '0' <= d <= '9' ==> b == (if a->0 * 10 + (d as int - '0' as int) <= max {
            Some((a->0 * 10 + (d as int - '0' as int)) as u64)
        } else {
            None
        }),
        !('0' <= d <= '9') ==> b is None,
{
    let t = without_plus(text@);
    let u = without_plus(more@);
    if text@.len() > 0 {
        assert(u =~= t.push(d));
    } else if d != '+' {
        assert(u =~= seq![d]);
    } else {
        assert(u =~= seq![]);
    }
    assert(u.len() > 0 ==> u.drop_last() =~= (if text@.len() > 0 { t } else { seq![] }));
    reveal_with_fuel(digits_value, 2);
    if u.len() > 0 {
        assert(u.last() == d);
        if all_digits(u) {
            assert(is_digit(u[u.len() - 1]));
            assert forall|i: int| 0 <= i < t.len() && text@.len() > 0 implies is_digit(
                #[trigger] t[i],
            ) by {
                assert(u[i] == t[i]);
            }
        }
        if is_digit(d) && all_digits(t) && text@.len() > 0 {
            assert(all_digits(u));
        }
    }
}

/// A number is written with its decimal digits, the last one behind those of a tenth of it.
pub proof fn law_digits_are_written(n: u128, r: String, head: String)
    requires
        call_ensures(unsigned_text, (n,), r),
        call_ensures(unsigned_text, (n / 10,), head),
    ensures
        n < 10 ==> r@ == seq![('0' as int + n) as char],
        n >= 10 ==> r@ == head@.push(('0' as int + n % 10) as char),
{
}

proof fn lemma_written_digits(n: nat)
    ensures
        all_digits(decimal(n)),
        decimal(n).len() > 0,
        digits_value(decimal(n)) == n,
    decreases n,
{
    let s = decimal(n);
    reveal_with_fuel(digits_value, 2);
    if n < 10 {
        assert(s.drop_last() =~= seq![]);
        assert(is_digit(s[0]));
    } else {
        lemma_written_digits(n / 10);
        let head = decimal(n / 10);
        assert(s.drop_last() =~= head);
        assert forall|i: int| 0 <= i < s.len() implies is_digit(#[trigger] s[i]) by {
            if i < head.len() {
                assert(s[i] == head[i]);
                assert(is_digit(head[i]));
            }
        }
    }
}

/// A number that is written is read as itself, with or without a plus sign, where it is no
/// more than the highest that is asked for.
pub proof fn law_written_numbers_are_read(
    n: u128,
    max: u64,
    text: String,
    same: &str,
    plus: &str,
    a: Option<u64>,
    b: Option<u64>,
)
    requires
        call_ensures(unsigned_text, (n,), text),
        same@ == text@,
        plus@ == seq!['+'] + text@,
        call_ensures(parse_unsigned, (same, max), a),
        call_ensures(parse_unsigned, (plus, max), b),
    ensures
        a == (if n <= max {
            Some(n as u64)
        } else {
            None
        }),
        b == a,
{
    lemma_written_digits(n as nat);
    assert(is_digit(text@[0]));
    assert(without_plus(same@) == text@);
    assert(without_plus(plus@) =~= text@);
}

/// A signed number is written as its size, behind a minus sign where it is negative.
pub proof fn law_signs_are_written(i: i64, size: u128, r: String, s: String)
    requires
        call_ensures(signed_text, (i,), r),
        call_ensures(unsigned_text, (size,), s),
        size == (if i < 0 {
            -i
        } else {
            i as int
        }),
    ensures
        i >= 0 ==> r@ == s@,
        i < 0 ==> r@ == seq!['-'] + s@,
{
}

proof fn lemma_no_mark(s: Seq<char>, c: char)
    requires
        all_digits(s),
        !is_digit(c),
    ensures
        first_of(s, c) == s.len(),
{
    assert forall|j: int| 0 <= j < s.len() implies s[j] != c by {
        assert(is_digit(s[j]));
    }
    lemma_first_of(s, c, s.len() as int);
}

/// Whether a text is made of decimal digits.
pub open spec fn digits(s: Seq<char>) -> bool {
    forall|i: int| 0 <= i < s.len() ==> '0' <= #[trigger] s[i] <= '9'
}

proof fn lemma_mantissa(whole: Seq<char>, fraction: Seq<char>)
    requires
        digits(whole),
        digits(fraction),
    ensures
        is_mantissa(whole) == (whole.len() > 0),
        is_mantissa(whole + seq!['.'] + fraction) == (whole.len() + fraction.len() > 0),
{
    assert(all_digits(whole));
    assert(all_digits(fraction));
    lemma_no_mark(whole, '.');
    let s = whole + seq!['.'] + fraction;
    let at = whole.len() as int;
    assert forall|j: int| 0 <= j < at implies s[j] != '.' by {
        assert(s[j] == whole[j]);
        assert(is_digit(whole[j]));
    }
    assert(s[at] == '.');
    lemma_first_of(s, '.', at);
    assert(s.take(at) =~= whole);
    assert(s.skip(at + 1) =~= fraction);
}

proof fn lemma_exponent_at(s: Seq<char>, mark: char, rest: Seq<char>)
    requires
        mark == 'e' || mark == 'E',
        forall|i: int| 0 <= i < s.len() ==> #[trigger] s[i] != 'e' && s[i] != 'E',
    ensures
        exponent_at(s) == s.len(),
        exponent_at(s.push(mark) + rest) == s.len(),
{
    let t = s.push(mark) + rest;
    let n = s.len() as int;
    lemma_first_of(s, 'e', n);
    lemma_first_of(s, 'E', n);
    assert forall|j: int| 0 <= j < n implies t[j] != 'e' && t[j] != 'E' by {
        assert(t[j] == s[j]);
    }
    assert(t[n] == mark);
    lemma_first_of(t, mark, n);
    lemma_first_of_range(t, 'e');
    lemma_first_of_range(t, 'E');
}

/// A number in decimal notation, with or without a sign, a fraction and an exponent, is a
/// literal where it has a digit before or behind its point and one in its exponent.
pub proof fn law_numbers_are_literals(
    sign: Seq<char>,
    whole: Seq<char>,
    fraction: Seq<char>,
    exponent: Seq<char>,
    plain: &str,
    pointed: &str,
    scaled: &str,
    a: bool,
    b: bool,
    c: bool,
)
    requires
        sign == seq!['+'] || sign == seq!['-'] || sign == Seq::<char>::empty(),
        digits(whole),
        digits(fraction),
        digits(exponent),
        plain@ == sign + whole,
        pointed@ == sign + (whole + seq!['.'] + fraction),
        scaled@ == sign + ((whole + seq!['.'] + fraction).push('e') + exponent),
        call_ensures(float_literal, (plain,), a),
        call_ensures(float_literal, (pointed,), b),
        call_ensures(float_literal, (scaled,), c),
    ensures
        a == (whole.len() > 0),
        b == (whole.len() + fraction.len() > 0),
        c == (whole.len() + fraction.len() > 0 && exponent.len() > 0),
{
    let m = whole + seq!['.'] + fraction;
    let e = m.push('e') + exponent;
    lemma_mantissa(whole, fraction);
    assert forall|i: int| 0 <= i < whole.len() implies #[trigger] whole[i] != 'e' && whole[i]
        != 'E' by {
        assert('0' <= whole[i] <= '9');
    }
    assert forall|i: int| 0 <= i < m.len() implies #[trigger] m[i] != 'e' && m[i] != 'E' by {
        if i < whole.len() {
            assert('0' <= whole[i] <= '9');
        } else if i > whole.len() {
            assert('0' <= fraction[i - whole.len() - 1] <= '9');
        }
    }
    lemma_exponent_at(whole, 'e', seq![]);
    lemma_exponent_at(m, 'e', exponent);
    assert(e.take(m.len() as int) =~= m);
    assert(e.skip((m.len() + 1) as int) =~= exponent);
    assert(all_digits(exponent));
    assert(exponent.len() > 0 ==> is_digit(exponent[0]));
    assert(without_sign(exponent) == exponent);
    lemma_unsigned_part(sign, whole);
    lemma_unsigned_part(sign, m);
    lemma_unsigned_part(sign, e);
    lemma_not_worded(whole);
    lemma_not_worded(m);
    lemma_not_worded(e);
}

proof fn lemma_unsigned_part(sign: Seq<char>, s: Seq<char>)
    requires
        sign == seq!['+'] || sign == seq!['-'] || sign == Seq::<char>::empty(),
        s.len() > 0 ==> s[0] != '+' && s[0] != '-',
    ensures
        without_sign(sign + s) == s,
{
    if sign.len() > 0 {
        assert((sign + s)[0] == sign[0]);
    }
    assert(without_sign(sign + s) =~= s);
}

proof fn lemma_worded(s: Seq<char>, word: Seq<char>, k: int)
    ensures
        is_word(s, word) ==> s.len() == word.len(),
        is_word(s, word) && 0 <= k < s.len() ==> lower(s[k]) == word[k],
{
    let low = s.map_values(|c: char| lower(c));
    assert(low.len() == s.len());
    if is_word(s, word) && 0 <= k < s.len() {
        assert(low == word);
        assert(low[k] == lower(s[k]));
    }
}

proof fn lemma_not_worded(s: Seq<char>)
    requires
        s.len() > 0 ==> '0' <= s[0] <= '9' || s[0] == '.',
    ensures
        !is_word(s, seq!['i', 'n', 'f']),
        !is_word(s, seq!['i', 'n', 'f', 'i', 'n', 'i', 't', 'y']),
        !is_word(s, seq!['n', 'a', 'n']),
{
    lemma_worded(s, seq!['i', 'n', 'f'], 0);
    lemma_worded(s, seq!['i', 'n', 'f', 'i', 'n', 'i', 't', 'y'], 0);
    lemma_worded(s, seq!['n', 'a', 'n'], 0);
}

/// A text with a character that no number has, and without the letters of infinity and of
/// what is not a number, is no literal; nor is the empty text.
pub proof fn law_other_texts_are_no_literals(text: &str, r: bool, i: int)
    requires
        call_ensures(float_literal, (text,), r),
        text@.len() == 0 || (0 <= i < text@.len() && text@[i] as u32 <= 0x7f && !('0' <= text@[i]
            <= '9') && text@[i] != '.' && text@[i] != '+' && text@[i] != '-' && !('a' <= text@[i]
            <= 'z') && !('A' <= text@[i] <= 'Z')),
    ensures
        !r,
{
    let t = without_sign(text@);
    if text@.len() > 0 {
        let c = text@[i];
        let k = if t.len() < text@.len() {
            i - 1
        } else {
            i
        };
        assert(t[k] == c);
        assert(lower(c) == c);
        lemma_worded(t, seq!['i', 'n', 'f'], k);
        lemma_worded(t, seq!['i', 'n', 'f', 'i', 'n', 'i', 't', 'y'], k);
        lemma_worded(t, seq!['n', 'a', 'n'], k);
        let at = exponent_at(t);
        lemma_first_of_range(t, 'e');
        lemma_first_of_range(t, 'E');
        if at < t.len() {
            let head = t.take(at);
            let tail = t.skip(at + 1);
            if k < at {
                lemma_not_mantissa(head, k);
            } else {
                assert(k > at);
                assert(tail[k - at - 1] == c);
                let u = without_sign(tail);
                let j = if u.len() < tail.len() {
                    k - at - 2
                } else {
                    k - at - 1
                };
                assert(u[j] == c);
                if all_digits(u) {
                    assert(is_digit(u[j]));
                }
            }
        } else {
            lemma_not_mantissa(t, k);
        }
    } else {
        lemma_worded(t, seq!['i', 'n', 'f'], 0);
        lemma_worded(t, seq!['i', 'n', 'f', 'i', 'n', 'i', 't', 'y'], 0);
        lemma_worded(t, seq!['n', 'a', 'n'], 0);
        lemma_first_of(t, 'e', 0);
        lemma_first_of(t, 'E', 0);
        lemma_first_of(t, '.', 0);
    }
}

proof fn lemma_not_mantissa(s: Seq<char>, k: int)
    requires
        0 <= k < s.len(),
        s[k] != '.',
        !is_digit(s[k]),
    ensures
        !is_mantissa(s),
{
    let at = first_of(s, '.');
    lemma_first_of_range(s, '.');
    if at < s.len() {
        if k < at {
            assert(s.take(at)[k] == s[k]);
        } else {
            assert(s.skip(at + 1)[k - at - 1] == s[k]);
        }
    }
}

// ---------------------------------------------------------------------------
// The order of texts
// ---------------------------------------------------------------------------

proof fn lemma_before_behind(head: Seq<char>, x: Seq<char>, y: Seq<char>)
    ensures
        text_before(head + x, head + y) == text_before(x, y),
    decreases head.len(),
{
    let a = head + x;
    let b = head + y;
    if head.len() > 0 {
        assert(a[0] == b[0]);
        assert(a.drop_first() =~= head.drop_first() + x);
        assert(b.drop_first() =~= head.drop_first() + y);
        lemma_before_behind(head.drop_first(), x, y);
    } else {
        assert(a =~= x);
        assert(b =~= y);
    }
}

/// Texts are ordered by the first character in which they differ; a text stands before
/// those that begin with it.
pub proof fn law_order_of_texts(
    a: &str,
    b: &str,
    head: Seq<char>,
    x: Seq<char>,
    y: Seq<char>,
    r: bool,
)
    requires
        call_ensures(before, (a, b), r),
        a@ == head + x,
        b@ == head + y,
        x.len() == 0 || y.len() == 0 || x[0] != y[0],
    ensures
        r == (y.len() > 0 && (x.len() == 0 || x[0] < y[0])),
{
    lemma_before_behind(head, x, y);
}

// ---------------------------------------------------------------------------
// Times
// ---------------------------------------------------------------------------

/// Time that has passed is the difference of two readings of the clock, and none where
/// the clock shows less than before.
pub proof fn law_time_passes(now: u64, then: u64, r: u64)
    requires
        call_ensures(since, (now, then), r),
    ensures
        now >= then ==> r + then == now,
        now < then ==> r == 0,
{
}

/// A duration comes to its seconds and the nanoseconds beside them, a thousand million of
/// which are a second. An error says of which text it is, and why.
pub proof fn law_durations_add_up(
    text: &str,
    parsed: Result<(u64, u32), String>,
    r: Result<u128, String>,
)
    requires
        call_ensures(duration_from, (text, parsed), r),
    ensures
        parsed matches Ok(d) ==> (r matches Ok(n) && n == d.0 * 1_000_000_000 + d.1),
        parsed matches Err(reason) ==> (r matches Err(m) && m@ == "Invalid duration '"@ + text@
            + "': "@ + reason@),
{
}

/// Whether a text is a whole number and a unit, each without whitespace.
pub open spec fn number_and_unit(text: Seq<char>, n: int) -> bool {
    &&& 0 < n <= text.len()
    &&& digits(text.take(n))
    &&& forall|i: int| n <= i < text.len() ==> 'a' <= #[trigger] text[i] <= 'z'
}

/// A whole number with a unit means what `humantime` says that it means.
pub proof fn law_simple_durations(text: &str, n: int, r: Result<u128, String>)
    requires
        call_ensures(parse_duration, (text,), r),
        number_and_unit(text@, n),
    ensures
        match humantime_duration(text@) {
            Ok(d) => r matches Ok(nanos) && nanos == d.0 * 1_000_000_000 + d.1,
            Err(reason) => r matches Err(m) && m@ == "Invalid duration '"@ + text@ + "': "@
                + reason,
        },
{
    assert(one_part(text@)) by {
        assert forall|i: int| !(#[trigger] begins(text@, i)) by {
            if begins(text@, i) {
                if i <= n {
                    assert('0' <= text@.take(n)[i - 1] <= '9');
                } else {
                    assert('a' <= text@[i] <= 'z');
                }
                if i == n {
                    assert('0' <= text@.take(n)[i - 1] <= '9');
                }
            }
        }
    }
}

// ---------------------------------------------------------------------------
// Settings
// ---------------------------------------------------------------------------

/// A setting that is a number counts as that number. The port is 8443 where none is set
/// that can be one, and a replica drains for two minutes where nothing is set. A time to
/// drain that is no number is an error.
pub proof fn law_settings(
    setting: Option<&str>,
    port: u16,
    seconds: Result<u64, String>,
    small: Option<u64>,
    large: Option<u64>,
)
    requires
        call_ensures(webhook_port, (setting,), port),
        call_ensures(drain_seconds, (setting,), seconds),
        setting matches Some(text) ==> call_ensures(parse_unsigned, (text, 65535u64), small)
            && call_ensures(parse_unsigned, (text, u64::MAX), large),
    ensures
        setting is None ==> port == 8443 && (seconds matches Ok(n) && n == 120),
        setting is Some ==> port == (match small {
            Some(n) => n,
            None => 8443u64,
        }),
        setting is Some ==> match large {
            Some(n) => seconds matches Ok(s) && s == n,
            None => seconds is Err,
        },
{
}

// ---------------------------------------------------------------------------
// Sets and maps
// ---------------------------------------------------------------------------

/// A set holds a name that was added, and another one exactly where it held it before. It
/// says that the name is new exactly where it did not hold it.
pub proof fn law_names_are_added(
    set: &mut NameSet,
    name: String,
    added: bool,
    before: &NameSet,
    after: &NameSet,
    asked: &str,
    held: bool,
    holds: bool,
)
    requires
        *before == *old(set),
        *after == *final(set),
        call_ensures(NameSet::insert, (set, name), added),
        call_ensures(NameSet::contains, (before, asked), held),
        call_ensures(NameSet::contains, (after, asked), holds),
    ensures
        holds == (held || asked@ == name@),
        asked@ == name@ ==> added == !held,
{
}

/// A set does not hold a name that was taken out, and another one exactly where it held it
/// before.
pub proof fn law_names_are_taken_out(
    set: &mut NameSet,
    name: &str,
    removed: bool,
    before: &NameSet,
    after: &NameSet,
    asked: &str,
    held: bool,
    holds: bool,
)
    requires
        *before == *old(set),
        *after == *final(set),
        call_ensures(NameSet::remove, (set, name), removed),
        call_ensures(NameSet::contains, (before, asked), held),
        call_ensures(NameSet::contains, (after, asked), holds),
    ensures
        holds == (held && asked@ != name@),
        asked@ == name@ ==> removed == held,
{
}

/// A set lists exactly the names that it holds, each once.
pub proof fn law_names_are_listed(set: &NameSet, r: Vec<String>, name: &str, holds: bool, i: int)
    requires
        call_ensures(NameSet::list, (set,), r),
        call_ensures(NameSet::contains, (set, name), holds),
        0 <= i < r@.len(),
    ensures
        holds <==> exists|j: int| 0 <= j < r@.len() && (#[trigger] r@[j])@ == name@,
        forall|j: int| 0 <= j < r@.len() && j != i ==> (#[trigger] r@[j])@ != r@[i]@,
{
    assert(views(r@).len() == r@.len());
    if holds {
        assert(views(r@).to_set().contains(name@));
        let j = choose|j: int| 0 <= j < views(r@).len() && views(r@)[j] == name@;
        assert(r@[j]@ == name@);
    }
    if exists|j: int| 0 <= j < r@.len() && (#[trigger] r@[j])@ == name@ {
        let j = choose|j: int| 0 <= j < r@.len() && (#[trigger] r@[j])@ == name@;
        assert(views(r@)[j] == name@);
        assert(views(r@).to_set().contains(name@));
    }
    assert forall|j: int| 0 <= j < r@.len() && j != i implies (#[trigger] r@[j])@ != r@[i]@ by {
        assert(views(r@)[j] == r@[j]@);
        assert(views(r@)[i] == r@[i]@);
    }
}

/// A map gives back the value that a name was given last, and leaves the others.
pub proof fn law_values_of_names<V>(
    map: &mut NameMap<V>,
    name: String,
    value: V,
    before: &NameMap<V>,
    after: &NameMap<V>,
    asked: &str,
    had: Option<&V>,
    has: Option<&V>,
)
    requires
        *before == *old(map),
        *after == *final(map),
        call_ensures(NameMap::<V>::insert, (map, name, value), ()),
        call_ensures(NameMap::<V>::get, (before, asked), had),
        call_ensures(NameMap::<V>::get, (after, asked), has),
    ensures
        asked@ == name@ ==> has is Some && *has->0 == value,
        asked@ != name@ ==> has is Some == had is Some && (has is Some ==> *has->0 == *had->0),
{
}

/// A map that a name was taken out of has no value for it, and hands out the one that it
/// had; it leaves the others.
pub proof fn law_values_are_taken_out<V>(
    map: &mut NameMap<V>,
    name: &str,
    r: Option<V>,
    before: &NameMap<V>,
    after: &NameMap<V>,
    asked: &str,
    had: Option<&V>,
    has: Option<&V>,
)
    requires
        *before == *old(map),
        *after == *final(map),
        call_ensures(NameMap::<V>::remove, (map, name), r),
        call_ensures(NameMap::<V>::get, (before, asked), had),
        call_ensures(NameMap::<V>::get, (after, asked), has),
    ensures
        asked@ == name@ ==> has is None && r is Some == had is Some && (r is Some ==> r->0
            == *had->0),
        asked@ != name@ ==> has is Some == had is Some && (has is Some ==> *has->0 == *had->0),
{
}

/// Of a map stay exactly the names that are in a set, with their values.
pub proof fn law_values_are_retained<V>(
    map: &mut NameMap<V>,
    names: &NameSet,
    before: &NameMap<V>,
    after: &NameMap<V>,
    asked: &str,
    listed: bool,
    had: Option<&V>,
    has: Option<&V>,
)
    requires
        *before == *old(map),
        *after == *final(map),
        call_ensures(NameMap::<V>::retain, (map, names), ()),
        call_ensures(NameSet::contains, (names, asked), listed),
        call_ensures(NameMap::<V>::get, (before, asked), had),
        call_ensures(NameMap::<V>::get, (after, asked), has),
    ensures
        has is Some == (had is Some && listed),
        has is Some ==> *has->0 == *had->0,
{
}

/// Labels give back the value that a key was given last, and leave the other keys.
pub proof fn law_values_of_labels(
    labels: &mut Labels,
    key: String,
    value: String,
    before: &Labels,
    after: &Labels,
    asked: &str,
    text: &str,
    had: Option<&String>,
    has: Option<&String>,
    is: bool,
    empty: bool,
)
    requires
        *before == *old(labels),
        *after == *final(labels),
        call_ensures(Labels::insert, (labels, key, value), ()),
        call_ensures(Labels::get, (before, asked), had),
        call_ensures(Labels::get, (after, asked), has),
        call_ensures(Labels::has, (after, asked, text), is),
        call_ensures(Labels::is_empty, (after,), empty),
    ensures
        asked@ == key@ ==> has is Some && has->0@ == value@,
        asked@ != key@ ==> has is Some == had is Some && (has is Some ==> has->0@ == had->0@),
        is == (has is Some && has->0@ == text@),
        !empty,
{
    assert(after@.contains_key(key@));
}

/// A list of strings holds a text exactly where one of them is that text.
pub proof fn law_lists_hold(items: &Vec<String>, text: &str, other: &str, r: bool, equal: bool)
    requires
        call_ensures(list_contains, (items, text), r),
        call_ensures(same, (text, other), equal),
    ensures
        r <==> exists|i: int| 0 <= i < items@.len() && (#[trigger] items@[i])@ == text@,
        equal <==> text@ == other@,
{
    assert(views(items@).len() == items@.len());
    if r {
        let i = choose|i: int| 0 <= i < views(items@).len() && views(items@)[i] == text@;
        assert(items@[i]@ == text@);
    }
    if exists|i: int| 0 <= i < items@.len() && (#[trigger] items@[i])@ == text@ {
        let i = choose|i: int| 0 <= i < items@.len() && (#[trigger] items@[i])@ == text@;
        assert(views(items@)[i] == text@);
    }
}

// ---------------------------------------------------------------------------
// Metric targets
// ---------------------------------------------------------------------------

/// What the target of a metric gives, it keeps; what it leaves out has its default. The
/// rate is taken of a counter, and the average of a gauge, where nothing else is asked for.
pub proof fn law_metric_targets(fields: MetricTargetFields, r: MetricTarget)
    requires
        call_ensures(MetricTarget::deserialize, (fields,), r),
    ensures
        r.metric_name@ == fields.metric_name@,
        fields.port is Some ==> r.port == fields.port->0,
        fields.port is None ==> r.port == 8080,
        fields.path is Some ==> r.path@ == fields.path->0@,
        fields.path is None ==> r.path@ == "/metrics"@,
        fields.interval_seconds is Some ==> r.interval_seconds == fields.interval_seconds->0,
        fields.interval_seconds is None ==> r.interval_seconds == 30,
        fields.timeout_seconds is Some ==> r.timeout_seconds == fields.timeout_seconds->0,
        fields.timeout_seconds is None ==> r.timeout_seconds == 10,
        fields.window_duration_seconds is Some ==> r.window_duration_seconds
            == fields.window_duration_seconds->0,
        fields.window_duration_seconds is None ==> r.window_duration_seconds == 120,
        fields.value_type is Some ==> r.value_type == fields.value_type->0,
        fields.value_type is None ==> r.value_type is Gauge,
        fields.aggregation is Some ==> r.aggregation == fields.aggregation->0,
        fields.aggregation is None && r.value_type is Gauge ==> r.aggregation is Avg,
        fields.aggregation is None && r.value_type is Counter ==> r.aggregation is Rate,
{
}

} // verus!
