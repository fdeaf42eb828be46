//! Lengths of time, in nanoseconds.

use crate::number::is_digit;
use crate::text::{chars_of, find, first_of, is_space, space};
use vstd::prelude::*;
use vstd::string::StrSliceExecFns;
use vstd::string::StringExecFns;

verus! {

/// Nanoseconds in a second.
pub const SECOND: u128 = 1_000_000_000;

/// What `humantime::parse_duration` makes of a text: the whole seconds and the
/// nanoseconds beside them, or how the error describes itself.
pub uninterp spec fn humantime_duration(text: Seq<char>) -> Result<(u64, u32), Seq<char>>;

/// The nanoseconds that `humantime::parse_duration` reads in a text, where it can.
pub open spec fn read_nanos(text: Seq<char>) -> Option<nat> {
    match humantime_duration(text) {
        Ok(d) => Some(nanos_of(d)),
        Err(_) => None,
    }
}

/// Whether a character can stand in the number of a duration.
pub open spec fn numeric(c: char) -> bool {
    is_digit(c) || is_space(c) || c == '.'
}

/// Whether a part of a duration begins at `i` behind another one: a number follows a
/// unit.
pub open spec fn begins(t: Seq<char>, i: int) -> bool {
    0 < i < t.len() && (is_digit(t[i]) || is_space(t[i])) && !numeric(t[i - 1])
}

/// Whether a text holds one part of a duration at most: a number, then a unit.
pub open spec fn one_part(t: Seq<char>) -> bool {
    forall|i: int| !(#[trigger] begins(t, i))
}

/// Where a part ends that reaches to `i` at least: where the next one begins.
pub open spec fn part_end(t: Seq<char>, i: int) -> int
    decreases t.len() - i,
{
    if i >= t.len() {
        t.len() as int
    } else if begins(t, i) {
        i
    } else {
        part_end(t, i + 1)
    }
}

/// How many characters the number of a part has.
pub open spec fn number_len(part: Seq<char>) -> nat
    decreases part.len(),
{
    if part.len() == 0 || !numeric(part[0]) {
        0
    } else {
        1 + number_len(part.drop_first())
    }
}

/// The number of a part.
pub open spec fn number_of(part: Seq<char>) -> Seq<char> {
    part.take(number_len(part) as int)
}

/// The unit of a part.
pub open spec fn unit_of(part: Seq<char>) -> Seq<char> {
    part.skip(number_len(part) as int)
}

/// A part without what stands behind the point of its number.
pub open spec fn whole_of(part: Seq<char>) -> Seq<char> {
    number_of(part).take(first_of(number_of(part), '.')) + unit_of(part)
}

/// What stands behind the point of the number of a part, with the point; nothing where
/// there is none.
pub open spec fn fraction_of(part: Seq<char>) -> Seq<char> {
    number_of(part).skip(first_of(number_of(part), '.'))
}

/// Whether a fraction is written as one: a point, then digits, so few that a power of ten
/// above them fits 64 bits.
pub open spec fn is_fraction(fraction: Seq<char>) -> bool {
    let digits = fraction.filter(|c: char| is_digit(c)).len();
    fraction.len() == 0 || (1 <= digits <= 19 && !fraction.drop_first().contains('.'))
}

/// Whether the unit of a part is shorter than a second.
pub open spec fn in_nanos(part: Seq<char>) -> bool {
    read_nanos(seq!['1'] + unit_of(part)) matches Some(unit) && unit < SECOND
}

/// What no duration reaches: 2^64 seconds, in nanoseconds.
pub const TOO_LONG: u128 = 18446744073709551616 * 1_000_000_000;

/// Whether a second at most was left below 2^64 seconds, and `more` is just that.
pub open spec fn fills(total: nat, more: int) -> bool {
    total < TOO_LONG <= total + SECOND && total + more == TOO_LONG
}

/// Whether the nanoseconds of a part do not fit 64 bits beside those that were left over
/// before.
pub open spec fn swamps(total: nat, part: Seq<char>) -> bool {
    in_nanos(part) && (read_nanos(whole_of(part)) matches Some(whole) && total % (SECOND as nat)
        + whole > u64::MAX)
}

/// Whether the reader runs over in a part, given what the parts before it came to. It
/// adds the whole number first, then the fraction, each as seconds or as nanoseconds.
/// Where the seconds are as many as there can be, and nanoseconds are added that make up
/// one more, it builds a duration that does not exist.
pub open spec fn runs_over_in(total: nat, part: Seq<char>) -> bool {
    read_nanos(whole_of(part)) matches Some(whole) && {
        ||| in_nanos(part) && is_fraction(fraction_of(part)) && fills(total, whole as int)
        ||| !swamps(total, part) && (read_nanos(part) matches Some(all) && fills(
            total + whole,
            all - whole,
        ))
    }
}

/// What the parts come to once the reader has read one more, where it goes on.
pub open spec fn total_with(total: nat, part: Seq<char>) -> Option<nat> {
    match read_nanos(part) {
        Some(more) => if total + more < TOO_LONG && !swamps(total, part) {
            Some(total + more)
        } else {
            None
        },
        None => None,
    }
}

/// Whether the reader runs over in a part of a duration from `i` on, given what the
/// parts before it came to.
pub open spec fn runs_over(t: Seq<char>, i: int, total: nat) -> bool
    decreases t.len() - i,
{
    if i < 0 || i >= t.len() {
        false
    } else {
        let j = part_end(t, i + 1);
        let part = t.subrange(i, j);
        proof {
            lemma_part_end(t, i + 1);
        }
        runs_over_in(total, part) || match total_with(total, part) {
            Some(next) => runs_over(t, j, next),
            None => false,
        }
    }
}

/// A part ends where another one begins for the first time, and not before.
pub proof fn lemma_part_end(t: Seq<char>, i: int)
    requires
        0 < i <= t.len(),
    ensures
        i <= part_end(t, i) <= t.len(),
        forall|k: int| i <= k < part_end(t, i) ==> !(#[trigger] begins(t, k)),
    decreases t.len() - i,
{
    if i < t.len() && !begins(t, i) {
        lemma_part_end(t, i + 1);
    }
}

/// Whether the reader of durations gets through a text without running over, whether or
/// not it finds a duration there. One part alone never makes it run over.
pub open spec fn readable(s: Seq<char>) -> bool {
    one_part(s) || !runs_over(s, 0, 0)
}

/// Calls `humantime::parse_duration` and takes the duration apart with
/// `Duration::as_secs` and `Duration::subsec_nanos`; an error is given by what its
/// `Display` writes. Claimed is only that the result depends on the text alone.
/// Texts that are not `readable` are left out: on those it panics.
#[verifier::external_body]
fn humantime_parse(text: &str) -> (r: Result<(u64, u32), String>)
    requires
        readable(text@),
    ensures
        match r {
            Ok(d) => humantime_duration(text@) == Ok::<(u64, u32), Seq<char>>(d),
            Err(m) => humantime_duration(text@) == Err::<(u64, u32), Seq<char>>(m@),
        },
{
    match humantime::parse_duration(text) {
        Ok(d) => Ok((d.as_secs(), d.subsec_nanos())),
        Err(e) => Err(e.to_string()),
    }
}

/// The nanoseconds of a duration given as seconds and nanoseconds.
pub open spec fn nanos_of(parts: (u64, u32)) -> nat {
    (parts.0 * SECOND + parts.1) as nat
}

/// How a duration that cannot be read is reported.
pub open spec fn bad_duration(text: Seq<char>, reason: Seq<char>) -> Seq<char> {
    "Invalid duration '"@ + text + "': "@ + reason
}

/// The nanoseconds that a text writes, given what the reader of durations made of
/// it, or the report of why it cannot be read.
pub open spec fn read_duration(
    text: Seq<char>,
    parsed: Result<(u64, u32), Seq<char>>,
) -> Result<nat, Seq<char>> {
    match parsed {
        Ok(parts) => Ok(nanos_of(parts)),
        Err(reason) => Err(bad_duration(text, reason)),
    }
}

/// The nanoseconds that a text such as `15s`, `5m` or `1h` writes, or the report of
/// why it cannot be read: the reader's own, unless it would run over.
pub open spec fn duration_of(text: Seq<char>) -> Result<nat, Seq<char>> {
    if readable(text) {
        read_duration(text, humantime_duration(text))
    } else {
        Err(bad_duration(text, "time is too long"@))
    }
}

/// A result whose values are given by what they stand for.
pub open spec fn duration_view(r: Result<u128, String>) -> Result<nat, Seq<char>> {
    match r {
        Ok(n) => Ok(n as nat),
        Err(m) => Err(m@),
    }
}

/// The longest duration that seconds and nanoseconds can give.
pub const LONGEST: u128 = 18446744073709551615 * 1_000_000_000 + 4294967295;

/// Turns what the reader of durations made of `text` into nanoseconds.
pub fn duration_from(text: &str, parsed: Result<(u64, u32), String>) -> (r: Result<u128, String>)
    ensures
        duration_view(r) == read_duration(
            text@,
            match parsed {
                Ok(d) => Ok(d),
                Err(m) => Err(m@),
            },
        ),
        r is Ok ==> r->Ok_0 <= LONGEST,
{
    match parsed {
        Ok(parts) => Ok(parts.0 as u128 * SECOND + parts.1 as u128),
        Err(reason) => {
            let mut m = "Invalid duration '".to_owned();
            m.append(text);
            m.append("': ");
            m.append(reason.as_str());
            Err(m)
        },
    }
}

/// Reads a duration such as `15s`, `5m` or `1h`.
pub fn parse_duration(text: &str) -> (r: Result<u128, String>)
    ensures
        duration_view(r) == duration_of(text@),
        r is Ok ==> r->Ok_0 <= LONGEST,
{
    if within_limits(text) {
        duration_from(text, humantime_parse(text))
    } else {
        duration_from(text, Err("time is too long".to_owned()))
    }
}

fn in_number(c: char) -> (r: bool)
    ensures
        r == numeric(c),
{
    (c >= '0' && c <= '9') || space(c) || c == '.'
}

fn is_beginning(t: &Vec<char>, i: usize) -> (r: bool)
    ensures
        r == begins(t@, i as int),
{
    0 < i && i < t.len() && in_number(t[i]) && t[i] != '.' && !in_number(t[i - 1])
}

fn is_one_part(t: &Vec<char>) -> (r: bool)
    ensures
        r == one_part(t@),
{
    let mut i: usize = 0;
    while i < t.len()
        invariant
            i <= t@.len(),
            forall|k: int| k < i ==> !(#[trigger] begins(t@, k)),
        decreases t.len() - i,
    {
        if is_beginning(t, i) {
            return false;
        }
        i += 1;
    }
    true
}

fn end_of_part(t: &Vec<char>, i: usize) -> (end: usize)
    requires
        0 < i <= t@.len(),
    ensures
        end == part_end(t@, i as int),
        i <= end <= t@.len(),
{
    let mut end: usize = i;
    while end < t.len() && !is_beginning(t, end)
        invariant
            0 < i <= end <= t@.len(),
            part_end(t@, i as int) == part_end(t@, end as int),
        decreases t.len() - end,
    {
        end += 1;
    }
    end
}

proof fn lemma_number_len(part: Seq<char>, i: int)
    requires
        0 <= i <= part.len(),
        forall|k: int| 0 <= k < i ==> numeric(#[trigger] part[k]),
        i < part.len() ==> !numeric(part[i]),
    ensures
        number_len(part) == i,
    decreases part.len(),
{
    if i > 0 {
        let rest = part.drop_first();
        assert(numeric(part[0]));
        assert forall|k: int| 0 <= k < i - 1 implies numeric(#[trigger] rest[k]) by {
            assert(rest[k] == part[k + 1]);
        }
        lemma_number_len(rest, i - 1);
    }
}

fn length_of_number(part: &Vec<char>) -> (n: usize)
    ensures
        n == number_len(part@),
        n <= part@.len(),
        forall|k: int| 0 <= k < n ==> numeric(#[trigger] part@[k]),
{
    let mut n: usize = 0;
    while n < part.len() && in_number(part[n])
        invariant
            n <= part@.len(),
            forall|k: int| 0 <= k < n ==> numeric(#[trigger] part@[k]),
        decreases part.len() - n,
    {
        n += 1;
    }
    proof {
        lemma_number_len(part@, n as int);
    }
    n
}

proof fn lemma_stays_one_part(part: Seq<char>, number: Seq<char>, n: int)
    requires
        one_part(part),
        0 <= n <= part.len(),
        forall|k: int| 0 <= k < number.len() ==> numeric(#[trigger] number[k]),
    ensures
        one_part(number + part.skip(n)),
{
    let t = number + part.skip(n);
    assert forall|i: int| !(#[trigger] begins(t, i)) by {
        if begins(t, i) {
            let k = i - number.len();
            if k <= 0 {
                assert(numeric(number[i - 1]));
            } else {
                assert(begins(part, n + k));
            }
        }
    }
}

fn fraction_reads(fraction: &Vec<char>) -> (r: bool)
    ensures
        r == is_fraction(fraction@),
{
    let ghost digit = |c: char| is_digit(c);
    let mut digits: usize = 0;
    let mut point: bool = false;
    let mut i: usize = 0;
    assert(fraction@.take(0).filter(digit) =~= seq![]);
    while i < fraction.len()
        invariant
            i <= fraction@.len(),
            digit == (|c: char| is_digit(c)),
            digits <= i,
            digits == fraction@.take(i as int).filter(digit).len(),
            point == exists|k: int| 1 <= k < i && #[trigger] fraction@[k] == '.',
        decreases fraction.len() - i,
    {
        let ghost now = fraction@.take(i + 1);
        assert(now.drop_last() =~= fraction@.take(i as int));
        assert(now.last() == fraction@[i as int]);
        reveal_with_fuel(Seq::filter, 2);
        let c = fraction[i];
        if c >= '0' && c <= '9' {
            digits += 1;
        }
        if i > 0 && c == '.' {
            assert(fraction@[i as int] == '.');
            point = true;
        }
        i += 1;
    }
    proof {
        assert(fraction@.take(i as int) =~= fraction@);
        if fraction@.len() > 0 {
            let rest = fraction@.drop_first();
            if rest.contains('.') {
                let k = choose|k: int| 0 <= k < rest.len() && rest[k] == '.';
                assert(fraction@[k + 1] == '.');
            }
            if point {
                let k = choose|k: int| 1 <= k < i && #[trigger] fraction@[k] == '.';
                assert(rest[k - 1] == '.');
            }
        }
    }
    fraction.len() == 0 || (1 <= digits && digits <= 19 && !point)
}

fn read_part(text: &str) -> (r: Option<u128>)
    requires
        one_part(text@),
    ensures
        match r {
            Some(n) => read_nanos(text@) == Some(n as nat) && n <= LONGEST,
            None => read_nanos(text@) is None,
        },
{
    match humantime_parse(text) {
        Ok(d) => Some(d.0 as u128 * SECOND + d.1 as u128),
        Err(_) => None,
    }
}

/// Reads a part on top of what the parts before it came to: whether the reader runs over
/// in it, and what the parts come to with it, where the reader goes on.
fn read_on(total: u128, part: &str) -> (r: (bool, Option<u128>))
    requires
        one_part(part@),
        total < TOO_LONG,
    ensures
        r.0 == runs_over_in(total as nat, part@),
        match r.1 {
            Some(next) => total_with(total as nat, part@) == Some(next as nat) && next < TOO_LONG,
            None => total_with(total as nat, part@) is None,
        },
{
    let chars = chars_of(part);
    let n: usize = length_of_number(&chars);
    let number = part.substring_char(0, n);
    let unit = part.substring_char(n, chars.len());
    let digits = chars_of(number);
    let point: usize = find(&digits, '.');
    let before = number.substring_char(0, point);
    let mut whole = before.to_owned();
    whole.append(unit);
    let mut single = "1".to_owned();
    single.append(unit);
    let fraction = chars_of(number.substring_char(point, digits.len()));
    proof {
        reveal_strlit("1");
        assert(number@ =~= number_of(part@));
        assert(unit@ =~= unit_of(part@));
        assert(before@ =~= number@.take(point as int));
        assert(whole@ =~= whole_of(part@));
        assert(single@ =~= seq!['1'] + unit_of(part@));
        assert(fraction@ =~= fraction_of(part@));
        assert forall|k: int| 0 <= k < before@.len() implies numeric(#[trigger] before@[k]) by {
            assert(before@[k] == part@[k]);
        }
        lemma_stays_one_part(part@, before@, n as int);
        lemma_stays_one_part(part@, seq!['1'], n as int);
        assert(before@ + part@.skip(n as int) =~= whole@);
        assert(seq!['1'] + part@.skip(n as int) =~= single@);
    }
    let short = match read_part(single.as_str()) {
        Some(unit) => unit < SECOND,
        None => false,
    };
    let all = read_part(part);
    let (over, swamped) = match read_part(whole.as_str()) {
        Some(whole) => {
            let swamped = short && total % SECOND + whole > u64::MAX as u128;
            let filled = short && fraction_reads(&fraction) && fill(total, whole);
            let with_fraction = match all {
                Some(all) => !swamped && all >= whole && fill(total + whole, all - whole),
                None => false,
            };
            (filled || with_fraction, swamped)
        },
        None => (false, false),
    };
    let next = match all {
        Some(more) => {
            if total + more < TOO_LONG && !swamped {
                Some(total + more)
            } else {
                None
            }
        },
        None => None,
    };
    (over, next)
}

fn fill(total: u128, more: u128) -> (r: bool)
    requires
        total <= TOO_LONG + LONGEST,
        more <= LONGEST,
    ensures
        r == fills(total as nat, more as int),
{
    total < TOO_LONG && TOO_LONG <= total + SECOND && total + more == TOO_LONG
}

fn reader_runs_over(text: &str) -> (r: bool)
    ensures
        r == runs_over(text@, 0, 0),
{
    let t = chars_of(text);
    let mut total: u128 = 0;
    let mut i: usize = 0;
    while i < t.len()
        invariant
            t@ == text@,
            i <= t@.len(),
            total < TOO_LONG,
            runs_over(text@, 0, 0) == runs_over(text@, i as int, total as nat),
        decreases t.len() - i,
    {
        let end: usize = end_of_part(&t, i + 1);
        let part = text.substring_char(i, end);
        proof {
            assert(part@ =~= text@.subrange(i as int, end as int));
            lemma_part_end(text@, i + 1);
            assert forall|k: int| !(#[trigger] begins(part@, k)) by {
                if begins(part@, k) {
                    assert(begins(text@, i + k));
                }
            }
        }
        let (over, next) = read_on(total, part);
        if over {
            return true;
        }
        match next {
            Some(next) => {
                total = next;
            },
            None => {
                return false;
            },
        }
        i = end;
    }
    false
}

/// Whether a duration is `readable`.
pub fn within_limits(text: &str) -> (r: bool)
    ensures
        r == readable(text@),
{
    is_one_part(&chars_of(text)) || !reader_runs_over(text)
}

/// The whole seconds of a duration.
pub open spec fn whole_seconds(nanos: nat) -> nat {
    nanos / (SECOND as nat)
}

/// The time from `then` to `now`; none where the clock shows less than it did.
pub open spec fn elapsed(now: u64, then: u64) -> nat {
    if now >= then {
        (now - then) as nat
    } else {
        0
    }
}

/// The time from `then` to `now`; none where the clock shows less than it did.
pub fn since(now: u64, then: u64) -> (r: u64)
    ensures
        r == elapsed(now, then),
{
    if now >= then {
        now - then
    } else {
        0
    }
}

} // verus!
