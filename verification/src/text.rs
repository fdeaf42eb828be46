//! Operations on text, stated over sequences of characters.

use vstd::prelude::*;
use vstd::string::StrSliceExecFns;
use vstd::string::StringExecFns;

verus! {

/// The contents of a list of strings.
pub open spec fn views(items: Seq<String>) -> Seq<Seq<char>> {
    items.map_values(|s: String| s@)
}

/// The content of an optional string.
pub open spec fn opt_view(item: Option<String>) -> Option<Seq<char>> {
    match item {
        Some(s) => Some(s@),
        None => None,
    }
}

/// A result whose values are given by their contents.
pub open spec fn text_result(r: Result<String, String>) -> Result<Seq<char>, Seq<char>> {
    match r {
        Ok(s) => Ok(s@),
        Err(s) => Err(s@),
    }
}

/// The characters of a string, in order.
pub fn chars_of(text: &str) -> (chars: Vec<char>)
    ensures
        chars@ == text@,
{
    let mut chars: Vec<char> = Vec::new();
    for c in it: text.chars()
        invariant
            chars@ == text@.take(it.index() as int),
            it.seq() == text@,
    {
        chars.push(c);
    }
    chars
}

/// Whether two strings hold the same characters.
pub fn same(a: &str, b: &str) -> (r: bool)
    ensures
        r == (a@ == b@),
{
    let left = a.to_owned();
    let right = b.to_owned();
    left == right
}

/// A copy of an optional string.
pub fn copy_opt(item: &Option<String>) -> (r: Option<String>)
    ensures
        opt_view(r) == opt_view(*item),
{
    match item {
        Some(s) => Some(s.clone()),
        None => None,
    }
}

/// A copy of a list of strings.
pub fn copy_all(items: &Vec<String>) -> (r: Vec<String>)
    ensures
        views(r@) == views(items@),
{
    let mut r: Vec<String> = Vec::new();
    let mut i: usize = 0;
    while i < items.len()
        invariant
            i <= items.len(),
            r@.len() == i,
            forall|k: int| 0 <= k < i ==> (#[trigger] r@[k])@ == items@[k]@,
        decreases items.len() - i,
    {
        r.push(items[i].clone());
        i += 1;
    }
    assert(views(r@) =~= views(items@));
    r
}

/// Whether a list of strings holds the given one.
pub fn list_contains(items: &Vec<String>, text: &str) -> (r: bool)
    ensures
        r == views(items@).contains(text@),
{
    let mut i: usize = 0;
    while i < items.len()
        invariant
            i <= items.len(),
            forall|k: int| 0 <= k < i ==> (#[trigger] items@[k])@ != text@,
        decreases items.len() - i,
    {
        if same(items[i].as_str(), text) {
            assert(views(items@)[i as int] == text@);
            return true;
        }
        i += 1;
    }
    assert(!views(items@).contains(text@)) by {
        if views(items@).contains(text@) {
            let k = choose|k: int| 0 <= k < views(items@).len() && views(items@)[k] == text@;
            assert(items@[k]@ == text@);
        }
    }
    false
}

// ---------------------------------------------------------------------------
// Searching
// ---------------------------------------------------------------------------

/// The place of the first `c` in `s`; the length of `s` where there is none.
pub open spec fn first_of(s: Seq<char>, c: char) -> int
    decreases s.len(),
{
    if s.len() == 0 || s[0] == c {
        0
    } else {
        1 + first_of(s.drop_first(), c)
    }
}

/// The place of the last `c` in `s`; -1 where there is none.
pub open spec fn last_of(s: Seq<char>, c: char) -> int
    decreases s.len(),
{
    if s.len() == 0 || s.last() == c {
        s.len() - 1
    } else {
        last_of(s.drop_last(), c)
    }
}

pub proof fn lemma_first_of(s: Seq<char>, c: char, i: int)
    requires
        0 <= i <= s.len(),
        forall|j: int| 0 <= j < i ==> s[j] != c,
        i < s.len() ==> s[i] == c,
    ensures
        first_of(s, c) == i,
    decreases s.len(),
{
    if i > 0 {
        lemma_first_of(s.drop_first(), c, i - 1);
    }
}

pub proof fn lemma_first_of_range(s: Seq<char>, c: char)
    ensures
        0 <= first_of(s, c) <= s.len(),
        forall|j: int| 0 <= j < first_of(s, c) ==> s[j] != c,
        first_of(s, c) < s.len() ==> s[first_of(s, c)] == c,
    decreases s.len(),
{
    if s.len() != 0 && s[0] != c {
        let rest = s.drop_first();
        lemma_first_of_range(rest, c);
        assert forall|j: int| 0 <= j < first_of(s, c) implies s[j] != c by {
            if j > 0 {
                assert(s[j] == rest[j - 1]);
            }
        }
    }
}

pub proof fn lemma_last_of(s: Seq<char>, c: char, i: int)
    requires
        -1 <= i < s.len(),
        forall|j: int| i < j < s.len() ==> s[j] != c,
        i >= 0 ==> s[i] == c,
    ensures
        last_of(s, c) == i,
    decreases s.len(),
{
    if i < s.len() - 1 {
        lemma_last_of(s.drop_last(), c, i);
    }
}

/// Finds the first `c` among `chars`.
pub fn find(chars: &Vec<char>, c: char) -> (at: usize)
    ensures
        at == first_of(chars@, c),
        at <= chars@.len(),
        at < chars@.len() ==> chars@[at as int] == c,
        forall|j: int| 0 <= j < at ==> chars@[j] != c,
{
    let mut i: usize = 0;
    while i < chars.len() && chars[i] != c
        invariant
            i <= chars.len(),
            forall|j: int| 0 <= j < i ==> chars@[j] != c,
        decreases chars.len() - i,
    {
        i += 1;
    }
    proof {
        lemma_first_of(chars@, c, i as int);
    }
    i
}

/// Finds the last `c` among `chars`.
pub fn rfind(chars: &Vec<char>, c: char) -> (at: Option<usize>)
    ensures
        match at {
            Some(i) => i < chars@.len() && last_of(chars@, c) == i && chars@[i as int] == c,
            None => last_of(chars@, c) == -1 && !chars@.contains(c),
        },
{
    let mut i: usize = chars.len();
    while i > 0
        invariant
            i <= chars.len(),
            forall|j: int| i <= j < chars@.len() ==> chars@[j] != c,
        decreases i,
    {
        if chars[i - 1] == c {
            proof {
                lemma_last_of(chars@, c, i - 1);
            }
            return Some(i - 1);
        }
        i -= 1;
    }
    proof {
        lemma_last_of(chars@, c, -1);
    }
    None
}

/// Whether `c` stands twice in a row somewhere in `s`.
pub open spec fn has_double(s: Seq<char>, c: char) -> bool {
    exists|i: int| 0 <= i < s.len() - 1 && #[trigger] s[i] == c && s[i + 1] == c
}

/// Whether `c` stands twice in a row somewhere among `chars`.
pub fn contains_double(chars: &Vec<char>, c: char) -> (r: bool)
    ensures
        r == has_double(chars@, c),
{
    let mut i: usize = 1;
    while i < chars.len()
        invariant
            1 <= i,
            forall|k: int| 0 <= k < i - 1 && k < chars@.len() - 1 ==> !(#[trigger] chars@[k] == c
                && chars@[k + 1] == c),
        decreases chars.len() - i,
    {
        if chars[i - 1] == c && chars[i] == c {
            assert(chars@[i as int - 1] == c && chars@[(i as int - 1) + 1] == c);
            return true;
        }
        i += 1;
    }
    false
}

// ---------------------------------------------------------------------------
// Whitespace
// ---------------------------------------------------------------------------

/// Whether a character has the Unicode property `White_Space`.
pub open spec fn is_space(c: char) -> bool {
    let n = c as int;
    ||| 0x9 <= n <= 0xd
    ||| n == 0x20
    ||| n == 0x85
    ||| n == 0xa0
    ||| n == 0x1680
    ||| 0x2000 <= n <= 0x200a
    ||| n == 0x2028
    ||| n == 0x2029
    ||| n == 0x202f
    ||| n == 0x205f
    ||| n == 0x3000
}

/// Whether a character has the Unicode property `White_Space`.
pub fn space(c: char) -> (r: bool)
    ensures
        r == is_space(c),
{
    let n: u32 = c as u32;
    (0x9 <= n && n <= 0xd) || n == 0x20 || n == 0x85 || n == 0xa0 || n == 0x1680 || (0x2000 <= n
        && n <= 0x200a) || n == 0x2028 || n == 0x2029 || n == 0x202f || n == 0x205f || n == 0x3000
}

/// `s` without the longest prefix of characters that `drop` holds of.
pub open spec fn strip_start(s: Seq<char>, drop: spec_fn(char) -> bool) -> Seq<char>
    decreases s.len(),
{
    if s.len() > 0 && drop(s[0]) {
        strip_start(s.drop_first(), drop)
    } else {
        s
    }
}

/// `s` without the longest suffix of characters that `drop` holds of.
pub open spec fn strip_end(s: Seq<char>, drop: spec_fn(char) -> bool) -> Seq<char>
    decreases s.len(),
{
    if s.len() > 0 && drop(s.last()) {
        strip_end(s.drop_last(), drop)
    } else {
        s
    }
}

/// `s` without the whitespace at its two ends.
pub open spec fn trimmed(s: Seq<char>) -> Seq<char> {
    strip_end(strip_start(s, |c: char| is_space(c)), |c: char| is_space(c))
}

/// Holds of the one character `mark`.
pub open spec fn only(mark: char) -> spec_fn(char) -> bool {
    |c: char| c == mark
}

/// `s` without the characters equal to `mark` at its two ends.
pub open spec fn trimmed_of(s: Seq<char>, mark: char) -> Seq<char> {
    strip_end(strip_start(s, only(mark)), only(mark))
}

pub proof fn lemma_strip_start(s: Seq<char>, drop: spec_fn(char) -> bool, i: int)
    requires
        0 <= i <= s.len(),
        forall|j: int| 0 <= j < i ==> drop(#[trigger] s[j]),
        i < s.len() ==> !drop(s[i]),
    ensures
        strip_start(s, drop) == s.skip(i),
    decreases s.len(),
{
    if i > 0 {
        let rest = s.drop_first();
        assert(drop(s[0]));
        assert forall|j: int| 0 <= j < i - 1 implies drop(#[trigger] rest[j]) by {
            assert(rest[j] == s[j + 1]);
        }
        lemma_strip_start(rest, drop, i - 1);
        assert(rest.skip(i - 1) =~= s.skip(i));
    } else {
        assert(s.skip(0) =~= s);
    }
}

pub proof fn lemma_strip_end(s: Seq<char>, drop: spec_fn(char) -> bool, i: int)
    requires
        0 <= i <= s.len(),
        forall|j: int| i <= j < s.len() ==> drop(#[trigger] s[j]),
        i > 0 ==> !drop(s[i - 1]),
    ensures
        strip_end(s, drop) == s.take(i),
    decreases s.len(),
{
    if i < s.len() {
        let rest = s.drop_last();
        assert(drop(s[s.len() - 1]));
        assert forall|j: int| i <= j < rest.len() implies drop(#[trigger] rest[j]) by {
            assert(rest[j] == s[j]);
        }
        lemma_strip_end(rest, drop, i);
        assert(rest.take(i) =~= s.take(i));
    } else {
        assert(s.take(i) =~= s);
    }
}

/// `text` without the whitespace at its two ends.
pub fn trim<'a>(text: &'a str) -> (r: &'a str)
    ensures
        r@ == trimmed(text@),
{
    let chars = chars_of(text);
    let mut from: usize = 0;
    while from < chars.len() && space(chars[from])
        invariant
            from <= chars.len(),
            forall|j: int| 0 <= j < from ==> is_space(#[trigger] chars@[j]),
        decreases chars.len() - from,
    {
        from += 1;
    }
    let mut to: usize = chars.len();
    while to > from && space(chars[to - 1])
        invariant
            from <= to <= chars.len(),
            forall|j: int| to <= j < chars.len() ==> is_space(#[trigger] chars@[j]),
        decreases to,
    {
        to -= 1;
    }
    proof {
        let drop = |c: char| is_space(c);
        let s = text@;
        lemma_strip_start(s, drop, from as int);
        let t = s.skip(from as int);
        assert forall|j: int| to - from <= j < t.len() implies drop(#[trigger] t[j]) by {
            assert(t[j] == s[j + from]);
        }
        if to > from {
            assert(t[to - from - 1] == s[to - 1]);
        }
        lemma_strip_end(t, drop, to - from);
        assert(t.take(to - from) =~= s.subrange(from as int, to as int));
    }
    text.substring_char(from, to)
}

/// `text` without the characters equal to `mark` at its two ends.
pub fn trim_of<'a>(text: &'a str, mark: char) -> (r: &'a str)
    ensures
        r@ == trimmed_of(text@, mark),
{
    let chars = chars_of(text);
    let mut from: usize = 0;
    while from < chars.len() && chars[from] == mark
        invariant
            from <= chars.len(),
            forall|j: int| 0 <= j < from ==> #[trigger] chars@[j] == mark,
        decreases chars.len() - from,
    {
        from += 1;
    }
    let mut to: usize = chars.len();
    while to > from && chars[to - 1] == mark
        invariant
            from <= to <= chars.len(),
            forall|j: int| to <= j < chars.len() ==> #[trigger] chars@[j] == mark,
        decreases to,
    {
        to -= 1;
    }
    proof {
        let drop = only(mark);
        let s = text@;
        lemma_strip_start(s, drop, from as int);
        let t = s.skip(from as int);
        assert forall|j: int| to - from <= j < t.len() implies drop(#[trigger] t[j]) by {
            assert(t[j] == s[j + from]);
        }
        if to > from {
            assert(t[to - from - 1] == s[to - 1]);
        }
        lemma_strip_end(t, drop, to - from);
        assert(t.take(to - from) =~= s.subrange(from as int, to as int));
    }
    text.substring_char(from, to)
}

// ---------------------------------------------------------------------------
// Splitting and joining
// ---------------------------------------------------------------------------

/// The pieces of `s` between the occurrences of `sep`.
pub open spec fn split_on(s: Seq<char>, sep: char) -> Seq<Seq<char>>
    decreases s.len(),
{
    let at = first_of(s, sep);
    if 0 <= at < s.len() {
        seq![s.take(at)] + split_on(s.skip(at + 1), sep)
    } else {
        seq![s]
    }
}

/// The pieces of `text` between the occurrences of `sep`.
pub fn split(text: &str, sep: char) -> (pieces: Vec<String>)
    ensures
        views(pieces@) == split_on(text@, sep),
{
    let chars = chars_of(text);
    let ghost s = text@;
    let mut pieces: Vec<String> = Vec::new();
    let mut start: usize = 0;
    let mut i: usize = 0;
    assert(s.skip(0) =~= s);
    assert(views(pieces@) + split_on(s, sep) =~= split_on(s, sep));
    while i < chars.len()
        invariant
            chars@ == s,
            s == text@,
            start <= i <= chars.len(),
            forall|j: int| start <= j < i ==> s[j] != sep,
            views(pieces@) + split_on(s.skip(start as int), sep) == split_on(s, sep),
        decreases chars.len() - i,
    {
        if chars[i] == sep {
            let ghost before = pieces@;
            pieces.push(text.substring_char(start, i).to_owned());
            proof {
                let rest = s.skip(start as int);
                lemma_first_of(rest, sep, i - start);
                assert(rest.take(i - start) =~= s.subrange(start as int, i as int));
                assert(rest.skip(i - start + 1) =~= s.skip(i + 1));
                assert(views(pieces@) =~= views(before).push(rest.take(i - start)));
                assert(views(pieces@) + split_on(s.skip(i + 1), sep) =~= views(before) + (
                seq![rest.take(i - start)] + split_on(s.skip(i + 1), sep)));
            }
            start = i + 1;
        }
        i += 1;
    }
    let ghost before = pieces@;
    pieces.push(text.substring_char(start, i).to_owned());
    proof {
        let rest = s.skip(start as int);
        lemma_first_of(rest, sep, rest.len() as int);
        assert(rest =~= s.subrange(start as int, i as int));
        assert(views(pieces@) =~= views(before) + seq![rest]);
    }
    pieces
}

/// The length of the longest prefix of `s` without whitespace.
pub open spec fn word_len(s: Seq<char>) -> int
    decreases s.len(),
{
    if s.len() == 0 || is_space(s[0]) {
        0
    } else {
        1 + word_len(s.drop_first())
    }
}

/// The maximal runs of characters of `s` that are not whitespace.
pub open spec fn words(s: Seq<char>) -> Seq<Seq<char>>
    decreases s.len(),
{
    let n = word_len(s);
    if s.len() == 0 {
        seq![]
    } else if 0 < n <= s.len() {
        seq![s.take(n)] + words(s.skip(n))
    } else {
        words(s.drop_first())
    }
}

proof fn lemma_word_len(s: Seq<char>, i: int)
    requires
        0 <= i <= s.len(),
        forall|j: int| 0 <= j < i ==> !is_space(#[trigger] s[j]),
        i < s.len() ==> is_space(s[i]),
    ensures
        word_len(s) == i,
    decreases s.len(),
{
    if i > 0 {
        assert(!is_space(s[0]));
        let rest = s.drop_first();
        assert forall|j: int| 0 <= j < i - 1 implies !is_space(#[trigger] rest[j]) by {
            assert(rest[j] == s[j + 1]);
        }
        lemma_word_len(rest, i - 1);
    }
}

/// The maximal runs of characters of `text` that are not whitespace.
pub fn split_whitespace(text: &str) -> (pieces: Vec<String>)
    ensures
        views(pieces@) == words(text@),
{
    let chars = chars_of(text);
    let ghost s = text@;
    let mut pieces: Vec<String> = Vec::new();
    let mut i: usize = 0;
    assert(s.skip(0) =~= s);
    assert(views(pieces@) + words(s) =~= words(s));
    while i < chars.len()
        invariant
            chars@ == s,
            s == text@,
            i <= chars.len(),
            views(pieces@) + words(s.skip(i as int)) == words(s),
        decreases chars.len() - i,
    {
        let ghost rest = s.skip(i as int);
        if space(chars[i]) {
            proof {
                lemma_word_len(rest, 0);
                assert(rest.drop_first() =~= s.skip(i + 1));
            }
            i += 1;
        } else {
            let start: usize = i;
            while i < chars.len() && !space(chars[i])
                invariant
                    start <= i <= chars.len(),
                    forall|j: int| start <= j < i ==> !is_space(#[trigger] chars@[j]),
                decreases chars.len() - i,
            {
                i += 1;
            }
            let ghost before = pieces@;
            pieces.push(text.substring_char(start, i).to_owned());
            proof {
                assert forall|j: int| 0 <= j < i - start implies !is_space(#[trigger] rest[j]) by {
                    assert(rest[j] == chars@[j + start]);
                }
                assert(rest.len() == chars@.len() - start);
                if i < chars@.len() {
                    assert(rest[i - start] == chars@[i as int]);
                }
                lemma_word_len(rest, i - start);
                assert(!is_space(rest[0]));
                assert(rest.take(i - start) =~= s.subrange(start as int, i as int));
                assert(rest.skip(i - start) =~= s.skip(i as int));
                assert(views(pieces@) =~= views(before).push(rest.take(i - start)));
                assert(views(pieces@) + words(s.skip(i as int)) =~= views(before) + (
                seq![rest.take(i - start)] + words(s.skip(i as int))));
            }
        }
    }
    assert(s.skip(i as int) =~= Seq::<char>::empty());
    assert(words(s.skip(i as int)) =~= Seq::<Seq<char>>::empty());
    assert(views(pieces@) + Seq::<Seq<char>>::empty() =~= views(pieces@));
    pieces
}

/// The texts one after the other, with `sep` between two of them.
pub open spec fn joined(parts: Seq<Seq<char>>, sep: Seq<char>) -> Seq<char>
    decreases parts.len(),
{
    if parts.len() == 0 {
        seq![]
    } else if parts.len() == 1 {
        parts[0]
    } else {
        joined(parts.drop_last(), sep) + sep + parts.last()
    }
}

/// Joins `parts`, with `sep` between two of them.
pub fn join(parts: &Vec<String>, sep: &str) -> (r: String)
    ensures
        r@ == joined(views(parts@), sep@),
{
    let mut r = String::new();
    let mut i: usize = 0;
    let ghost all = views(parts@);
    assert(all.take(0) =~= seq![]);
    while i < parts.len()
        invariant
            i <= parts.len(),
            all == views(parts@),
            r@ == joined(all.take(i as int), sep@),
        decreases parts.len() - i,
    {
        let ghost now = all.take(i as int + 1);
        assert(now.drop_last() =~= all.take(i as int));
        assert(now.last() == parts@[i as int]@);
        if i > 0 {
            r.append(sep);
        }
        r.append(parts[i].as_str());
        assert(i == 0 ==> r@ =~= parts@[0]@);
        i += 1;
    }
    assert(all.take(i as int) =~= all);
    r
}

/// Whether `s` starts with `head`, and what then follows it.
pub open spec fn after_prefix(s: Seq<char>, head: Seq<char>) -> Option<Seq<char>> {
    if head.len() <= s.len() && s.take(head.len() as int) == head {
        Some(s.skip(head.len() as int))
    } else {
        None
    }
}

/// What follows `head` in `text`, where `text` starts with it.
pub fn strip_prefix<'a>(text: &'a str, head: &str) -> (r: Option<&'a str>)
    ensures
        match r {
            Some(rest) => after_prefix(text@, head@) == Some(rest@),
            None => after_prefix(text@, head@) is None,
        },
{
    let n: usize = head.unicode_len();
    let len: usize = text.unicode_len();
    if n <= len && same(text.substring_char(0, n), head) {
        assert(text@.subrange(0, n as int) =~= text@.take(n as int));
        assert(text@.subrange(n as int, len as int) =~= text@.skip(n as int));
        Some(text.substring_char(n, len))
    } else {
        assert(n <= len ==> text@.subrange(0, n as int) =~= text@.take(n as int));
        None
    }
}

/// Whether `s` ends with `tail`, and what then stands before it.
pub open spec fn before_suffix(s: Seq<char>, tail: Seq<char>) -> Option<Seq<char>> {
    if tail.len() <= s.len() && s.skip(s.len() - tail.len()) == tail {
        Some(s.take(s.len() - tail.len()))
    } else {
        None
    }
}

/// What stands before `tail` in `text`, where `text` ends with it.
pub fn strip_suffix<'a>(text: &'a str, tail: &str) -> (r: Option<&'a str>)
    ensures
        match r {
            Some(rest) => before_suffix(text@, tail@) == Some(rest@),
            None => before_suffix(text@, tail@) is None,
        },
{
    let n: usize = tail.unicode_len();
    let len: usize = text.unicode_len();
    if n <= len && same(text.substring_char(len - n, len), tail) {
        assert(text@.subrange(len - n, len as int) =~= text@.skip(len - n));
        assert(text@.subrange(0, len - n) =~= text@.take(len - n));
        Some(text.substring_char(0, len - n))
    } else {
        assert(n <= len ==> text@.subrange(len - n, len as int) =~= text@.skip(len - n));
        None
    }
}

/// The parts of `s` before and after its first `sep`, where it holds one.
pub open spec fn cut(s: Seq<char>, sep: char) -> Option<(Seq<char>, Seq<char>)> {
    let at = first_of(s, sep);
    if at < s.len() {
        Some((s.take(at), s.skip(at + 1)))
    } else {
        None
    }
}

/// The parts of `text` before and after its first `sep`, where it holds one.
pub fn split_once<'a>(text: &'a str, sep: char) -> (r: Option<(&'a str, &'a str)>)
    ensures
        match r {
            Some((a, b)) => cut(text@, sep) == Some((a@, b@)),
            None => cut(text@, sep) is None,
        },
{
    let chars = chars_of(text);
    let at: usize = find(&chars, sep);
    if at < chars.len() {
        assert(text@.subrange(0, at as int) =~= text@.take(at as int));
        assert(text@.subrange(at + 1, chars@.len() as int) =~= text@.skip(at + 1));
        Some((text.substring_char(0, at), text.substring_char(at + 1, chars.len())))
    } else {
        None
    }
}

} // verus!
