//! What holds of reading the Prometheus text format.

use crate::labels::Labels;
use crate::laws::{
    is_blank, is_word_of, lemma_no_words, lemma_one_word, lemma_split_more, lemma_split_one,
    lemma_trimmed, lemma_words_joined,
};
use crate::number::float_literal;
use crate::scraper::parser::{
    can_read, labels_in, metric_views, parse_labels, parse_prometheus_text, read_metric_line, read_text, Line,
    PrometheusMetric,
};
use crate::store::types::MetricType;
use crate::text::{
    first_of, is_space, lemma_first_of, lemma_first_of_range, lemma_last_of, lemma_strip_end,
    lemma_strip_start, only, split_on, trimmed, trimmed_of, words,
};
use vstd::prelude::*;

verus! {

// ---------------------------------------------------------------------------
// Lines
// ---------------------------------------------------------------------------

/// Whether a line is a head, whitespace, a value and whatever follows it behind
/// whitespace, such as a timestamp.
pub open spec fn is_metric_line(
    line: Seq<char>,
    head: Seq<char>,
    gap: Seq<char>,
    value: Seq<char>,
    rest: Seq<char>,
) -> bool {
    &&& line == head + gap + value + rest
    &&& is_word_of(head)
    &&& gap.len() > 0 && is_blank(gap)
    &&& is_word_of(value)
    &&& rest.len() == 0 || is_space(rest[0])
}

proof fn lemma_line_words(
    line: Seq<char>,
    head: Seq<char>,
    gap: Seq<char>,
    value: Seq<char>,
    rest: Seq<char>,
)
    requires
        is_metric_line(line, head, gap, value, rest),
    ensures
        words(line).len() >= 2,
        words(line)[0] == head,
        words(line)[1] == value,
{
    assert(is_space(gap[0]));
    assert(is_space(gap[gap.len() - 1]));
    lemma_one_word(head);
    lemma_one_word(value);
    lemma_no_words(gap);
    lemma_words_joined(head, gap);
    assert((head + gap).last() == gap.last());
    lemma_words_joined(head + gap, value);
    lemma_words_joined(head + gap + value, rest);
    assert(words(line) =~= seq![head, value] + words(rest));
}

/// What stands behind the value of a line makes no difference: the metric has the name
/// and the value that are written first, and no labels where none are written. It is a
/// counter where that was said of its name, else a gauge.
pub proof fn law_line_without_labels(
    line: &str,
    head: Seq<char>,
    gap: Seq<char>,
    value: &str,
    rest: Seq<char>,
    current: &Option<(String, MetricType)>,
    number: bool,
    r: Line,
)
    requires
        is_metric_line(line@, head, gap, value@, rest),
        !head.contains('{'),
        call_ensures(float_literal, (value,), number),
        call_ensures(read_metric_line, (line, current), r),
    ensures
        !number ==> (r matches Line::Fault(m) && m@ == "Invalid metric value: "@ + value@),
        number ==> (r matches Line::Metric(m) && {
            &&& m.name@ == head
            &&& m.value@ == value@
            &&& m.labels@ == Map::<Seq<char>, Seq<char>>::empty()
            &&& m.metric_type == MetricType::Counter <==> (current matches Some(told) && told.0@
                == head && told.1 == MetricType::Counter)
        }),
{
    lemma_line_words(line@, head, gap, value@, rest);
    assert forall|j: int| 0 <= j < head.len() implies head[j] != '{' by {
        if head[j] == '{' {
            assert(head.contains('{'));
        }
    }
    lemma_first_of(head, '{', head.len() as int);
}

/// A line with labels between braces gives a metric with these labels; its name stands
/// before the braces.
pub proof fn law_line_with_labels(
    line: &str,
    name: Seq<char>,
    inner: &str,
    gap: Seq<char>,
    value: &str,
    rest: Seq<char>,
    current: &Option<(String, MetricType)>,
    number: bool,
    labels: Result<Labels, String>,
    r: Line,
)
    requires
        is_metric_line(line@, name.push('{') + inner@.push('}'), gap, value@, rest),
        !name.contains('{'),
        call_ensures(float_literal, (value,), number),
        call_ensures(parse_labels, (inner,), labels),
        call_ensures(read_metric_line, (line, current), r),
        number,
    ensures
        r matches Line::Metric(m) && {
            &&& m.name@ == name
            &&& m.value@ == value@
            &&& labels matches Ok(l) && m.labels@ == l@
            &&& m.metric_type == MetricType::Counter <==> (current matches Some(told) && told.0@
                == name && told.1 == MetricType::Counter)
        },
{
    let head = name.push('{') + inner@.push('}');
    lemma_line_words(line@, head, gap, value@, rest);
    let n = name.len() as int;
    assert forall|j: int| 0 <= j < n implies head[j] != '{' by {
        assert(head[j] == name[j]);
        if name[j] == '{' {
            assert(name.contains('{'));
        }
    }
    assert(head[n] == '{');
    lemma_first_of(head, '{', n);
    assert(head[head.len() - 1] == '}');
    lemma_last_of(head, '}', head.len() - 1);
    assert(head.take(n) =~= name);
    assert(head.subrange(n + 1, head.len() - 1) =~= inner@);
}

/// A line with an opening brace that is never closed is at fault.
pub proof fn law_line_without_end_of_labels(
    line: &str,
    head: Seq<char>,
    gap: Seq<char>,
    value: &str,
    rest: Seq<char>,
    current: &Option<(String, MetricType)>,
    number: bool,
    r: Line,
)
    requires
        is_metric_line(line@, head, gap, value@, rest),
        head.contains('{'),
        !head.contains('}'),
        call_ensures(float_literal, (value,), number),
        call_ensures(read_metric_line, (line, current), r),
        number,
    ensures
        r matches Line::Fault(m) && m@ == "Invalid metric format"@,
{
    lemma_line_words(line@, head, gap, value@, rest);
    lemma_first_of_range(head, '{');
    let k = choose|k: int| 0 <= k < head.len() && head[k] == '{';
    assert(first_of(head, '{') <= k);
    assert forall|j: int| -1 < j < head.len() implies head[j] != '}' by {
        if head[j] == '}' {
            assert(head.contains('}'));
        }
    }
    lemma_last_of(head, '}', -1);
}

/// A line of one word, or of none, holds no metric.
pub proof fn law_line_without_value(
    line: &str,
    head: Seq<char>,
    gap: Seq<char>,
    current: &Option<(String, MetricType)>,
    r: Line,
)
    requires
        line@ == head + gap,
        head.len() == 0 || is_word_of(head),
        is_blank(gap),
        call_ensures(read_metric_line, (line, current), r),
    ensures
        r is Nothing,
{
    if gap.len() > 0 {
        assert(is_space(gap[0]));
    }
    lemma_no_words(gap);
    lemma_words_joined(head, gap);
    if head.len() > 0 {
        lemma_one_word(head);
    } else {
        lemma_no_words(head);
    }
    assert(words(line@).len() <= 1);
}

// ---------------------------------------------------------------------------
// Labels
// ---------------------------------------------------------------------------

/// Whether a text does not begin or end with whitespace.
pub open spec fn tight(s: Seq<char>) -> bool {
    s.len() > 0 ==> !is_space(s[0]) && !is_space(s.last())
}

proof fn lemma_tight(s: Seq<char>)
    requires
        tight(s),
    ensures
        trimmed(s) == s,
{
    let drop = |c: char| is_space(c);
    lemma_strip_start(s, drop, 0);
    assert(s.skip(0) =~= s);
    lemma_strip_end(s, drop, s.len() as int);
    assert(s.take(s.len() as int) =~= s);
}

proof fn lemma_blank_before(lead: Seq<char>, s: Seq<char>)
    requires
        is_blank(lead),
        s.len() > 0,
        tight(s),
    ensures
        trimmed(lead + s) == s,
{
    let drop = |c: char| is_space(c);
    let t = lead + s;
    let n = lead.len() as int;
    assert forall|j: int| 0 <= j < n implies drop(#[trigger] t[j]) by {
        assert(t[j] == lead[j]);
    }
    assert(t[n] == s[0]);
    lemma_strip_start(t, drop, n);
    assert(t.skip(n) =~= s);
    lemma_strip_end(s, drop, s.len() as int);
    assert(s.take(s.len() as int) =~= s);
}

proof fn lemma_unquoted(value: Seq<char>)
    requires
        value.len() > 0 ==> value[0] != '"' && value.last() != '"',
    ensures
        trimmed_of(seq!['"'] + value + seq!['"'], '"') == value,
{
    let drop = only('"');
    let t = seq!['"'] + value + seq!['"'];
    if value.len() > 0 {
        lemma_strip_start(t, drop, 1);
        let u = t.skip(1);
        assert(u =~= value.push('"'));
        lemma_strip_end(u, drop, value.len() as int);
        assert(u.take(value.len() as int) =~= value);
    } else {
        assert(t =~= seq!['"', '"']);
        lemma_strip_start(t, drop, 2);
        let u = t.skip(2);
        assert(u =~= seq![]);
        lemma_strip_end(u, drop, 0);
        assert(u.take(0) =~= value);
    }
}

/// Whether a piece of text writes a label: a key, `=` and a value between quotes, with or
/// without whitespace before them.
pub open spec fn writes_label(
    piece: Seq<char>,
    lead: Seq<char>,
    key: Seq<char>,
    value: Seq<char>,
) -> bool {
    &&& piece == lead + (key.push('=') + (seq!['"'] + value + seq!['"']))
    &&& is_blank(lead)
    &&& key.len() > 0 && tight(key)
    &&& !key.contains('=')
    &&& value.len() > 0 ==> value[0] != '"' && value.last() != '"'
    &&& !piece.contains(',')
}

proof fn lemma_label_piece(
    piece: Seq<char>,
    lead: Seq<char>,
    key: Seq<char>,
    value: Seq<char>,
    before: Seq<Seq<char>>,
)
    requires
        writes_label(piece, lead, key, value),
    ensures
        labels_in(before.push(piece)) == labels_in(before).insert(key, value),
{
    let quoted = seq!['"'] + value + seq!['"'];
    let pair = key.push('=') + quoted;
    assert(pair[0] == key[0]);
    assert(pair.last() == '"');
    lemma_blank_before(lead, pair);
    let n = key.len() as int;
    assert forall|j: int| 0 <= j < n implies pair[j] != '=' by {
        assert(pair[j] == key[j]);
        if key[j] == '=' {
            assert(key.contains('='));
        }
    }
    assert(pair[n] == '=');
    lemma_first_of(pair, '=', n);
    assert(pair.take(n) =~= key);
    assert(pair.skip(n + 1) =~= quoted);
    lemma_tight(key);
    assert(quoted[0] == '"' && quoted.last() == '"');
    lemma_tight(quoted);
    lemma_unquoted(value);
    assert(before.push(piece).drop_last() =~= before);
}

/// Each label that is written is read: behind a comma it is one more label, or another
/// value for its key, and it leaves the other labels as they are.
pub proof fn law_labels(
    text: &str,
    more: &str,
    piece: &str,
    lead: Seq<char>,
    key: Seq<char>,
    value: Seq<char>,
    a: Result<Labels, String>,
    b: Result<Labels, String>,
    c: Result<Labels, String>,
)
    requires
        writes_label(piece@, lead, key, value),
        more@ == text@.push(',') + piece@,
        call_ensures(parse_labels, (text,), a),
        call_ensures(parse_labels, (more,), b),
        call_ensures(parse_labels, (piece,), c),
    ensures
        a is Ok && b is Ok && c is Ok,
        b->Ok_0@ == a->Ok_0@.insert(key, value),
        c->Ok_0@ == Map::<Seq<char>, Seq<char>>::empty().insert(key, value),
{
    lemma_split_more(text@, ',', piece@);
    lemma_label_piece(piece@, lead, key, value, split_on(text@, ','));
    lemma_split_one(piece@, ',');
    lemma_label_piece(piece@, lead, key, value, seq![]);
    assert(seq![piece@] =~= Seq::<Seq<char>>::empty().push(piece@));
}

/// What holds no `=` is no label.
pub proof fn law_no_labels(text: &str, r: Result<Labels, String>)
    requires
        !text@.contains(','),
        !text@.contains('='),
        call_ensures(parse_labels, (text,), r),
    ensures
        r matches Ok(labels) && labels@ == Map::<Seq<char>, Seq<char>>::empty(),
{
    lemma_split_one(text@, ',');
    let ends = lemma_trimmed(text@);
    let t = trimmed(text@);
    assert forall|j: int| 0 <= j < t.len() implies t[j] != '=' by {
        assert(t[j] == text@[ends.0 + j]);
        if t[j] == '=' {
            assert(text@.contains('='));
        }
    }
    lemma_first_of(t, '=', t.len() as int);
    assert(seq![text@].drop_last() =~= seq![]);
    assert(labels_in(Seq::<Seq<char>>::empty()) =~= Map::empty());
}

// ---------------------------------------------------------------------------
// Texts
// ---------------------------------------------------------------------------

/// Whether `b` lists the metrics of `a`, and `extra` more behind them.
pub open spec fn lists_more(
    a: Seq<PrometheusMetric>,
    b: Seq<PrometheusMetric>,
    extra: int,
) -> bool {
    b.len() == a.len() + extra && forall|i: int|
        0 <= i < a.len() ==> (#[trigger] b[i])@ == a[i]@
}

proof fn lemma_read_more(text: Seq<char>, line: Seq<char>)
    requires
        !line.contains('\n'),
    ensures
        read_text(text.push('\n') + line) == read_text(text).after(line),
{
    lemma_split_more(text, '\n', line);
    let lines = split_on(text, '\n');
    assert(lines.push(line).drop_last() =~= lines);
}

proof fn lemma_lists_more(a: Seq<PrometheusMetric>, b: Seq<PrometheusMetric>)
    requires
        metric_views(b) == metric_views(a) || (b.len() > 0 && metric_views(b) == metric_views(
            a,
        ).push(b.last()@)),
    ensures
        metric_views(b) == metric_views(a) ==> lists_more(a, b, 0),
        metric_views(b) != metric_views(a) ==> lists_more(a, b, 1),
{
    assert(metric_views(a).len() == a.len());
    assert(metric_views(b).len() == b.len());
    assert forall|i: int| 0 <= i < a.len() implies (#[trigger] b[i])@ == a[i]@ by {
        assert(metric_views(b)[i] == b[i]@);
        assert(metric_views(a)[i] == a[i]@);
    }
}

/// One more line with a metric adds this metric behind the others; a value that is no
/// number makes the whole text unreadable, and so does every fault before.
pub proof fn law_each_line_adds_its_metric(
    text: &str,
    more: &str,
    line: Seq<char>,
    head: Seq<char>,
    gap: Seq<char>,
    value: &str,
    rest: Seq<char>,
    number: bool,
    a: Result<Vec<PrometheusMetric>, String>,
    b: Result<Vec<PrometheusMetric>, String>,
)
    requires
        more@ == text@.push('\n') + line,
        is_metric_line(line, head, gap, value@, rest),
        rest.len() > 0 ==> !is_space(rest.last()),
        !line.contains('\n'),
        head[0] != '#',
        !head.contains('{'),
        call_ensures(float_literal, (value,), number),
        call_ensures(parse_prometheus_text, (text,), a),
        call_ensures(parse_prometheus_text, (more,), b),
    ensures
        a matches Err(m) ==> (b matches Err(n) && n@ == m@),
        a is Ok && !number ==> (b matches Err(m) && m@ == "Invalid metric value: "@ + value@),
        a is Ok && number ==> b is Ok && lists_more(a->Ok_0@, b->Ok_0@, 1) && ({
            let m = b->Ok_0@.last();
            &&& m.name@ == head
            &&& m.value@ == value@
            &&& m.labels@ == Map::<Seq<char>, Seq<char>>::empty()
        }),
{
    reveal_strlit("# TYPE ");
    lemma_read_more(text@, line);
    lemma_line_words(line, head, gap, value@, rest);
    assert(line[0] == head[0]);
    assert(!is_space(head[0]));
    if rest.len() > 0 {
        assert(line.last() == rest.last());
    } else {
        assert(line.last() == value@.last());
        assert(!is_space(value@[value@.len() - 1]));
    }
    lemma_tight(line);
    if line.len() >= 7 {
        assert(line.take(7)[0] == line[0]);
    }
    assert forall|j: int| 0 <= j < head.len() implies head[j] != '{' by {
        if head[j] == '{' {
            assert(head.contains('{'));
        }
    }
    lemma_first_of(head, '{', head.len() as int);
    if a is Ok && number {
        let x = a->Ok_0@;
        assert(b is Ok);
        let y = b->Ok_0@;
        assert(metric_views(y).len() == y.len());
        assert(metric_views(y).last() == y.last()@);
        lemma_lists_more(x, y);
        assert(metric_views(y).len() != metric_views(x).len());
    }
}

/// One more line with a metric and its labels adds this metric with these labels.
pub proof fn law_each_line_adds_its_labels(
    text: &str,
    more: &str,
    line: Seq<char>,
    name: Seq<char>,
    inner: &str,
    gap: Seq<char>,
    value: &str,
    rest: Seq<char>,
    number: bool,
    labels: Result<Labels, String>,
    a: Result<Vec<PrometheusMetric>, String>,
    b: Result<Vec<PrometheusMetric>, String>,
)
    requires
        more@ == text@.push('\n') + line,
        is_metric_line(line, name.push('{') + inner@.push('}'), gap, value@, rest),
        rest.len() > 0 ==> !is_space(rest.last()),
        !line.contains('\n'),
        !name.contains('{'),
        name.len() > 0 && name[0] != '#',
        call_ensures(float_literal, (value,), number),
        call_ensures(parse_labels, (inner,), labels),
        call_ensures(parse_prometheus_text, (text,), a),
        call_ensures(parse_prometheus_text, (more,), b),
        number,
        a is Ok,
    ensures
        b is Ok && lists_more(a->Ok_0@, b->Ok_0@, 1),
        ({
            let m = b->Ok_0@.last();
            &&& m.name@ == name
            &&& m.value@ == value@
            &&& labels matches Ok(l) && m.labels@ == l@
        }),
{
    reveal_strlit("# TYPE ");
    let head = name.push('{') + inner@.push('}');
    lemma_read_more(text@, line);
    lemma_line_words(line, head, gap, value@, rest);
    assert(line[0] == head[0] && head[0] == name[0]);
    assert(!is_space(head[0]));
    if rest.len() > 0 {
        assert(line.last() == rest.last());
    } else {
        assert(line.last() == value@.last());
        assert(!is_space(value@[value@.len() - 1]));
    }
    lemma_tight(line);
    if line.len() >= 7 {
        assert(line.take(7)[0] == line[0]);
    }
    let n = name.len() as int;
    assert forall|j: int| 0 <= j < n implies head[j] != '{' by {
        assert(head[j] == name[j]);
        if name[j] == '{' {
            assert(name.contains('{'));
        }
    }
    assert(head[n] == '{');
    lemma_first_of(head, '{', n);
    assert(head[head.len() - 1] == '}');
    lemma_last_of(head, '}', head.len() - 1);
    assert(head.take(n) =~= name);
    assert(head.subrange(n + 1, head.len() - 1) =~= inner@);
    let x = a->Ok_0@;
    assert(b is Ok);
    let y = b->Ok_0@;
    assert(metric_views(y).len() == y.len());
    assert(metric_views(y).last() == y.last()@);
    lemma_lists_more(x, y);
    assert(metric_views(y).len() != metric_views(x).len());
}

/// Blank lines and comments add nothing.
pub proof fn law_comments_add_nothing(
    text: &str,
    more: &str,
    line: Seq<char>,
    a: Result<Vec<PrometheusMetric>, String>,
    b: Result<Vec<PrometheusMetric>, String>,
)
    requires
        more@ == text@.push('\n') + line,
        !line.contains('\n'),
        is_blank(line) || (line[0] == '#' && line.len() > 0),
        call_ensures(parse_prometheus_text, (text,), a),
        call_ensures(parse_prometheus_text, (more,), b),
    ensures
        a matches Err(m) ==> (b matches Err(n) && n@ == m@),
        a is Ok ==> b is Ok && lists_more(a->Ok_0@, b->Ok_0@, 0),
{
    lemma_read_more(text@, line);
    let ends = lemma_trimmed(line);
    if is_blank(line) {
        if ends.0 < ends.1 {
            assert(is_space(line[ends.0]));
        }
        assert(trimmed(line).len() == 0);
    } else {
        assert(ends.0 == 0) by {
            if ends.0 > 0 {
                assert(is_space(line[0]));
            }
        }
        assert(ends.1 > 0) by {
            if ends.1 <= 0 {
                assert(is_space(line[0]));
            }
        }
        assert(trimmed(line)[0] == '#');
    }
    if a is Ok {
        lemma_lists_more(a->Ok_0@, b->Ok_0@);
    }
}

proof fn lemma_type_line(name: Seq<char>, word: Seq<char>)
    requires
        is_word_of(name),
        is_word_of(word),
    ensures
        ({
            let line = "# TYPE "@ + name + seq![' '] + word;
            &&& words(line) == seq![seq!['#'], seq!['T', 'Y', 'P', 'E'], name, word]
            &&& trimmed(line) == line
            &&& line.take(7) == "# TYPE "@
            &&& line.len() > 0 && line[0] == '#'
        }),
{
    reveal_strlit("# TYPE ");
    let lead = "# TYPE "@;
    let blank = seq![' '];
    let line = lead + name + blank + word;
    let hash = seq!['#'];
    let kind = seq!['T', 'Y', 'P', 'E'];
    assert(is_space(' '));
    assert(lead =~= hash + blank + kind + blank);
    lemma_one_word(hash);
    lemma_one_word(kind);
    lemma_no_words(blank);
    lemma_one_word(name);
    lemma_one_word(word);
    lemma_words_joined(hash, blank);
    assert((hash + blank).last() == ' ');
    lemma_words_joined(hash + blank, kind);
    lemma_words_joined(hash + blank + kind, blank);
    assert(lead.last() == ' ');
    lemma_words_joined(lead, name);
    lemma_words_joined(lead + name, blank);
    assert((lead + name + blank).last() == ' ');
    lemma_words_joined(lead + name + blank, word);
    assert(words(line) =~= seq![hash, kind, name, word]);
    assert(line.last() == word[word.len() - 1]);
    assert(line[0] == '#');
    lemma_tight(line);
    assert(line.take(7) =~= lead);
}

/// A metric is a counter where the line before says so of its name, and a gauge where
/// that line says anything else, or speaks of another name.
pub proof fn law_type_of_a_metric(
    text: &str,
    more: &str,
    name: Seq<char>,
    word: Seq<char>,
    line: Seq<char>,
    head: Seq<char>,
    gap: Seq<char>,
    value: &str,
    rest: Seq<char>,
    number: bool,
    a: Result<Vec<PrometheusMetric>, String>,
    b: Result<Vec<PrometheusMetric>, String>,
)
    requires
        is_word_of(name),
        is_word_of(word),
        !name.contains('\n') && !word.contains('\n'),
        more@ == (text@.push('\n') + ("# TYPE "@ + name + seq![' '] + word)).push('\n') + line,
        is_metric_line(line, head, gap, value@, rest),
        rest.len() > 0 ==> !is_space(rest.last()),
        !line.contains('\n'),
        head[0] != '#',
        !head.contains('{'),
        call_ensures(float_literal, (value,), number),
        number,
        call_ensures(parse_prometheus_text, (text,), a),
        call_ensures(parse_prometheus_text, (more,), b),
        a is Ok,
    ensures
        b is Ok && lists_more(a->Ok_0@, b->Ok_0@, 1),
        b->Ok_0@.last().metric_type == (if name == head && word == "counter"@ {
            MetricType::Counter
        } else {
            MetricType::Gauge
        }),
{
    let told = "# TYPE "@ + name + seq![' '] + word;
    let middle = text@.push('\n') + told;
    lemma_type_line(name, word);
    reveal_strlit("# TYPE ");
    assert(!told.contains('\n')) by {
        if told.contains('\n') {
            let j = choose|j: int| 0 <= j < told.len() && told[j] == '\n';
            if j >= 7 && j < 7 + name.len() {
                assert(name[j - 7] == '\n');
            } else if j > 7 + name.len() {
                assert(word[j - 8 - name.len()] == '\n');
            }
        }
    }
    lemma_read_more(text@, told);
    lemma_read_more(middle, line);
    lemma_line_words(line, head, gap, value@, rest);
    assert(line[0] == head[0]);
    assert(!is_space(head[0]));
    if rest.len() > 0 {
        assert(line.last() == rest.last());
    } else {
        assert(line.last() == value@.last());
        assert(!is_space(value@[value@.len() - 1]));
    }
    lemma_tight(line);
    if line.len() >= 7 {
        assert(line.take(7)[0] == line[0]);
    }
    assert forall|j: int| 0 <= j < head.len() implies head[j] != '{' by {
        if head[j] == '{' {
            assert(head.contains('{'));
        }
    }
    lemma_first_of(head, '{', head.len() as int);
    let x = a->Ok_0@;
    assert(b is Ok);
    let y = b->Ok_0@;
    assert(metric_views(y).len() == y.len());
    assert(metric_views(y).last() == y.last()@);
    lemma_lists_more(x, y);
    assert(metric_views(y).len() != metric_views(x).len());
}

/// One more line leaves a text readable to its end, unless its braces are crossed and all
/// before it could be read. A blank line or a comment makes no difference.
pub proof fn law_texts_that_can_be_read(
    text: &str,
    more: &str,
    line: &str,
    a: Result<Vec<PrometheusMetric>, String>,
    read: Line,
    can: bool,
    can_more: bool,
)
    requires
        more@ == text@.push('\n') + line@,
        !line@.contains('\n'),
        line@.len() > 0 && !is_space(line@[0]) && !is_space(line@.last()),
        call_ensures(parse_prometheus_text, (text,), a),
        call_ensures(read_metric_line, (line, &None::<(String, MetricType)>), read),
        call_ensures(can_read, (text,), can),
        call_ensures(can_read, (more,), can_more),
    ensures
        line@[0] == '#' ==> can_more == can,
        line@[0] != '#' ==> can_more == (can && !(a is Ok && read is Crossed)),
{
    reveal_strlit("# TYPE ");
    lemma_read_more(text@, line@);
    lemma_tight(line@);
    if line@.len() >= 7 {
        assert(line@.take(7)[0] == line@[0]);
    }
}

} // verus!
