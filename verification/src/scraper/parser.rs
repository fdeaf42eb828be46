//! The Prometheus text format.

use crate::labels::Labels;
use crate::number::{float_literal, is_float_literal};
use crate::store::types::MetricType;
use crate::text::{
    after_prefix, chars_of, cut, find, first_of, last_of, rfind, same, split, split_on, split_once,
    split_whitespace, strip_prefix, trim, trim_of, trimmed, trimmed_of, views, words,
};
use vstd::prelude::*;
use vstd::string::StrSliceExecFns;
use vstd::string::StringExecFns;

verus! {

/// A metric as a pod reports it.
#[derive(Debug)]
pub struct PrometheusMetric {
    /// Name of the metric
    pub name: String,
    /// The value, as the literal of a floating-point number
    pub value: String,
    /// Labels of the metric
    pub labels: Labels,
    /// Type of the metric
    pub metric_type: MetricType,
}

/// What a metric stands for.
pub struct MetricView {
    pub name: Seq<char>,
    pub value: Seq<char>,
    pub labels: Map<Seq<char>, Seq<char>>,
    pub metric_type: MetricType,
}

impl View for PrometheusMetric {
    type V = MetricView;

    open spec fn view(&self) -> MetricView {
        MetricView {
            name: self.name@,
            value: self.value@,
            labels: self.labels@,
            metric_type: self.metric_type,
        }
    }
}

/// What a list of metrics stands for.
pub open spec fn metric_views(metrics: Seq<PrometheusMetric>) -> Seq<MetricView> {
    metrics.map_values(|m: PrometheusMetric| m@)
}

// ---------------------------------------------------------------------------
// Labels
// ---------------------------------------------------------------------------

/// The labels that pieces such as `method="GET"` write. What holds no `=` is passed
/// over; of two values for one key the later counts.
pub open spec fn labels_in(pieces: Seq<Seq<char>>) -> Map<Seq<char>, Seq<char>>
    decreases pieces.len(),
{
    if pieces.len() == 0 {
        Map::empty()
    } else {
        let before = labels_in(pieces.drop_last());
        match cut(trimmed(pieces.last()), '=') {
            Some((key, value)) => before.insert(trimmed(key), trimmed_of(trimmed(value), '"')),
            None => before,
        }
    }
}

/// Parse Prometheus labels
/// Example: `method="GET",endpoint="/api"`
pub fn parse_labels(labels_str: &str) -> (r: Result<Labels, String>)
    ensures
        r matches Ok(labels) && labels@ == labels_in(split_on(labels_str@, ',')),
{
    let pieces = split(labels_str, ',');
    let ghost all = views(pieces@);
    let mut labels = Labels::new();
    let mut i: usize = 0;
    assert(all.take(0) =~= seq![]);
    while i < pieces.len()
        invariant
            i <= pieces@.len(),
            all == views(pieces@),
            labels@ == labels_in(all.take(i as int)),
        decreases pieces.len() - i,
    {
        proof {
            assert(all.take(i + 1).drop_last() =~= all.take(i as int));
            assert(all.take(i + 1).last() == pieces@[i as int]@);
        }
        let pair = trim(pieces[i].as_str());
        if let Some((key, value)) = split_once(pair, '=') {
            let bare = trim_of(trim(value), '"');
            labels.insert(trim(key).to_owned(), bare.to_owned());
        }
        i += 1;
    }
    assert(all.take(i as int) =~= all);
    Ok(labels)
}

// ---------------------------------------------------------------------------
// Lines
// ---------------------------------------------------------------------------

/// What a line with a metric gives.
pub enum LineView {
    /// Nothing: the line holds no metric.
    Nothing,
    /// A metric
    Metric(MetricView),
    /// The report of why the line cannot be read
    Fault(Seq<char>),
    /// No metric can be made of the line: its last `}` stands before its first `{`.
    Crossed,
}

/// The type of a metric, where the last line that gave a type named that metric, else
/// gauge.
pub open spec fn type_for(current: Option<(Seq<char>, MetricType)>, name: Seq<char>) -> MetricType {
    match current {
        Some((named, metric_type)) => if named == name {
            metric_type
        } else {
            MetricType::Gauge
        },
        None => MetricType::Gauge,
    }
}

/// What a line such as `http_requests_total{method="GET"} 123` gives: the first word
/// is the name, with or without labels, the second the value.
pub open spec fn line_view(
    line: Seq<char>,
    current: Option<(Seq<char>, MetricType)>,
) -> LineView {
    let parts = words(line);
    if parts.len() < 2 {
        LineView::Nothing
    } else if !is_float_literal(parts[1]) {
        LineView::Fault("Invalid metric value: "@ + parts[1])
    } else {
        let open = first_of(parts[0], '{');
        let close = last_of(parts[0], '}');
        if open == parts[0].len() {
            LineView::Metric(
                MetricView {
                    name: parts[0],
                    value: parts[1],
                    labels: Map::empty(),
                    metric_type: type_for(current, parts[0]),
                },
            )
        } else if close < 0 {
            LineView::Fault("Invalid metric format"@)
        } else if close < open {
            LineView::Crossed
        } else {
            let name = parts[0].take(open);
            LineView::Metric(
                MetricView {
                    name,
                    value: parts[1],
                    labels: labels_in(split_on(parts[0].subrange(open + 1, close), ',')),
                    metric_type: type_for(current, name),
                },
            )
        }
    }
}

/// The name and type that were last given, by contents.
pub open spec fn current_view(current: Option<(String, MetricType)>) -> Option<
    (Seq<char>, MetricType),
> {
    match current {
        Some((name, metric_type)) => Some((name@, metric_type)),
        None => None,
    }
}

/// What a line with a metric gives.
pub enum Line {
    Nothing,
    Metric(PrometheusMetric),
    Fault(String),
    Crossed,
}

impl View for Line {
    type V = LineView;

    open spec fn view(&self) -> LineView {
        match self {
            Line::Nothing => LineView::Nothing,
            Line::Metric(m) => LineView::Metric(m@),
            Line::Fault(m) => LineView::Fault(m@),
            Line::Crossed => LineView::Crossed,
        }
    }
}

fn type_of(current: &Option<(String, MetricType)>, name: &str) -> (r: MetricType)
    ensures
        r == type_for(current_view(*current), name@),
{
    match current {
        Some(named) => {
            if same(named.0.as_str(), name) {
                named.1
            } else {
                MetricType::Gauge
            }
        },
        None => MetricType::Gauge,
    }
}

/// Reads a line with a metric.
pub fn read_metric_line(line: &str, current: &Option<(String, MetricType)>) -> (r: Line)
    ensures
        r@ == line_view(line@, current_view(*current)),
{
    let parts = split_whitespace(line);
    let ghost ws = words(line@);
    assert(ws.len() == parts@.len());
    if parts.len() < 2 {
        return Line::Nothing;
    }
    assert(ws[0] == parts@[0]@ && ws[1] == parts@[1]@);
    let value = parts[1].clone();
    if !float_literal(value.as_str()) {
        let mut m = "Invalid metric value: ".to_owned();
        m.append(value.as_str());
        return Line::Fault(m);
    }
    let head = parts[0].clone();
    let chars = chars_of(head.as_str());
    let open: usize = find(&chars, '{');
    if open == chars.len() {
        let metric_type = type_of(current, head.as_str());
        return Line::Metric(
            PrometheusMetric { name: head, value, labels: Labels::new(), metric_type },
        );
    }
    match rfind(&chars, '}') {
        None => Line::Fault("Invalid metric format".to_owned()),
        Some(close) => {
            if close < open {
                return Line::Crossed;
            }
            let name = head.as_str().substring_char(0, open).to_owned();
            assert(name@ =~= ws[0].take(open as int));
            let inner = head.as_str().substring_char(open + 1, close);
            let metric_type = type_of(current, name.as_str());
            match parse_labels(inner) {
                Ok(labels) => Line::Metric(PrometheusMetric { name, value, labels, metric_type }),
                Err(m) => Line::Fault(m),
            }
        },
    }
}

// ---------------------------------------------------------------------------
// Texts
// ---------------------------------------------------------------------------

/// How far the reading of a text has come.
pub enum Progress {
    /// What was read, and the name and type that were last given
    Reading { current: Option<(Seq<char>, MetricType)>, metrics: Seq<MetricView> },
    /// The report of why a line could not be read
    Failed(Seq<char>),
    /// A line of which no metric can be made
    Stuck,
}

/// The type that a word names: counter, or gauge for any other word.
pub open spec fn named_type(word: Seq<char>) -> MetricType {
    if word == "counter"@ {
        MetricType::Counter
    } else {
        MetricType::Gauge
    }
}

impl Progress {
    /// How far the reading has come after one more line.
    pub open spec fn after(self, raw: Seq<char>) -> Progress {
        match self {
            Progress::Reading { current, metrics } => {
                let line = trimmed(raw);
                if line.len() == 0 {
                    self
                } else if after_prefix(line, "# TYPE "@) is Some {
                    let parts = words(line);
                    if parts.len() >= 4 {
                        Progress::Reading {
                            current: Some((parts[2], named_type(parts[3]))),
                            metrics,
                        }
                    } else {
                        self
                    }
                } else if line[0] == '#' {
                    self
                } else {
                    match line_view(line, current) {
                        LineView::Nothing => self,
                        LineView::Metric(m) => Progress::Reading {
                            current,
                            metrics: metrics.push(m),
                        },
                        LineView::Fault(m) => Progress::Failed(m),
                        LineView::Crossed => Progress::Stuck,
                    }
                }
            },
            _ => self,
        }
    }
}

/// How far the reading has come after the given lines.
pub open spec fn read_lines(lines: Seq<Seq<char>>) -> Progress
    decreases lines.len(),
{
    if lines.len() == 0 {
        Progress::Reading { current: None, metrics: seq![] }
    } else {
        read_lines(lines.drop_last()).after(lines.last())
    }
}

/// What the reading of a text comes to.
pub open spec fn read_text(text: Seq<char>) -> Progress {
    read_lines(split_on(text, '\n'))
}

/// Whether the reading of a text comes to an end: no line is met of which no metric
/// can be made.
pub open spec fn readable_text(text: Seq<char>) -> bool {
    !(read_text(text) is Stuck)
}

/// What the reading of a text came to.
enum Outcome {
    Done(Vec<PrometheusMetric>),
    Failed(String),
    Stuck,
}

impl Outcome {
    spec fn ends(self, progress: Progress) -> bool {
        match self {
            Outcome::Done(metrics) => progress matches Progress::Reading { metrics: m, .. } && m
                == metric_views(metrics@),
            Outcome::Failed(m) => progress == Progress::Failed(m@),
            Outcome::Stuck => progress is Stuck,
        }
    }
}

proof fn lemma_stays(lines: Seq<Seq<char>>, i: int)
    requires
        0 <= i <= lines.len(),
        !(read_lines(lines.take(i)) is Reading),
    ensures
        read_lines(lines) == read_lines(lines.take(i)),
    decreases lines.len() - i,
{
    if i < lines.len() {
        assert(lines.take(i + 1).drop_last() =~= lines.take(i));
        lemma_stays(lines, i + 1);
    } else {
        assert(lines.take(i) =~= lines);
    }
}

fn read(text: &str) -> (r: Outcome)
    ensures
        r.ends(read_text(text@)),
{
    let lines = split(text, '\n');
    let ghost all = views(lines@);
    let mut metrics: Vec<PrometheusMetric> = Vec::new();
    let mut current: Option<(String, MetricType)> = None;
    let mut i: usize = 0;
    assert(all.take(0) =~= seq![]);
    assert(metric_views(metrics@) =~= seq![]);
    while i < lines.len()
        invariant
            i <= lines@.len(),
            all == views(lines@),
            all == split_on(text@, '\n'),
            read_lines(all.take(i as int)) == (Progress::Reading {
                current: current_view(current),
                metrics: metric_views(metrics@),
            }),
        decreases lines.len() - i,
    {
        let line = trim(lines[i].as_str());
        proof {
            assert(all.take(i + 1).drop_last() =~= all.take(i as int));
            assert(all.take(i + 1).last() == lines@[i as int]@);
        }
        let ghost next = read_lines(all.take(i + 1));
        assert(next == read_lines(all.take(i as int)).after(lines@[i as int]@));
        if line.unicode_len() > 0 {
            if strip_prefix(line, "# TYPE ").is_some() {
                let parts = split_whitespace(line);
                assert(words(line@).len() == parts@.len());
                if parts.len() >= 4 {
                    let metric_type = if same(parts[3].as_str(), "counter") {
                        MetricType::Counter
                    } else {
                        MetricType::Gauge
                    };
                    current = Some((parts[2].clone(), metric_type));
                }
            } else if line.get_char(0) != '#' {
                match read_metric_line(line, &current) {
                    Line::Nothing => {},
                    Line::Metric(metric) => {
                        let ghost before = metrics@;
                        metrics.push(metric);
                        assert(metric_views(metrics@) =~= metric_views(before).push(metric@));
                    },
                    Line::Fault(m) => {
                        proof {
                            lemma_stays(all, i + 1);
                        }
                        return Outcome::Failed(m);
                    },
                    Line::Crossed => {
                        proof {
                            lemma_stays(all, i + 1);
                        }
                        return Outcome::Stuck;
                    },
                }
            }
        }
        i += 1;
    }
    assert(all.take(i as int) =~= all);
    Outcome::Done(metrics)
}

/// Whether the reading of a text comes to an end.
pub fn can_read(text: &str) -> (r: bool)
    ensures
        r == readable_text(text@),
{
    match read(text) {
        Outcome::Stuck => false,
        _ => true,
    }
}

/// Parse Prometheus text format
/// Example input:
/// ```text
/// # TYPE http_requests_total counter
/// http_requests_total{method="GET",endpoint="/api"} 123
/// http_requests_total{method="POST",endpoint="/api"} 45
/// # TYPE memory_usage_bytes gauge
/// memory_usage_bytes 1048576
/// ```
pub fn parse_prometheus_text(text: &str) -> (r: Result<Vec<PrometheusMetric>, String>)
    requires
        readable_text(text@),
    ensures
        match r {
            Ok(metrics) => read_text(text@) matches Progress::Reading { metrics: m, .. } && m
                == metric_views(metrics@),
            Err(m) => read_text(text@) == Progress::Failed(m@),
        },
{
    match read(text) {
        Outcome::Done(metrics) => Ok(metrics),
        Outcome::Failed(m) => Err(m),
        Outcome::Stuck => {
            assert(false);
            Ok(Vec::new())
        },
    }
}

} // verus!
