//! Validation of `ExternalPodAutoscaler` resources.

use crate::apis::externalpodautoscaler::{
    ExternalPodAutoscaler, ExternalPodAutoscalerSpec, MetricSpec, ScrapeConfig,
};
use crate::duration::{duration_of, parse_duration};
use crate::number::{
    decimal, decimal_int, float_literal, is_float_literal, parse_unsigned, signed_text,
    unsigned_text, unsigned_value,
};
use crate::text::{
    before_suffix, chars_of, contains_double, find, first_of, has_double, lemma_first_of_range,
    same, strip_suffix, trim, trimmed,
};
use vstd::prelude::*;
use vstd::string::StrSliceExecFns;
use vstd::string::StringExecFns;
use vstd::utf8::encode_utf8;

verus! {

/// A result without a value: its fault, where there is one.
pub open spec fn fault_in(r: Result<(), String>) -> Option<Seq<char>> {
    match r {
        Ok(()) => None,
        Err(m) => Some(m@),
    }
}

fn message2(a: &str, b: &str) -> (r: String)
    ensures
        r@ == a@ + b@,
{
    let mut r = a.to_owned();
    r.append(b);
    r
}

fn message3(a: &str, b: &str, c: &str) -> (r: String)
    ensures
        r@ == a@ + b@ + c@,
{
    let mut r = a.to_owned();
    r.append(b);
    r.append(c);
    r
}

// ---------------------------------------------------------------------------
// Durations
// ---------------------------------------------------------------------------

/// Whether the unit of a duration can be told apart: it is `ms`, or the last character
/// is a single byte.
pub open spec fn has_unit(duration: Seq<char>) -> bool {
    let d = trimmed(duration);
    d.len() > 0 && before_suffix(d, "ms"@) is None ==> d.last() as u32 <= 127
}

/// The number and the unit of a duration without whitespace at its ends.
pub open spec fn unit_split(d: Seq<char>) -> Option<(Seq<char>, Seq<char>)> {
    match before_suffix(d, "ms"@) {
        Some(number) => Some((number, "ms"@)),
        None => if d.len() > 1 {
            Some((d.drop_last(), seq![d.last()]))
        } else {
            None
        },
    }
}

/// Whether a text is a unit of durations.
pub open spec fn is_unit(unit: Seq<char>) -> bool {
    unit == "ms"@ || unit == "s"@ || unit == "m"@ || unit == "h"@
}

/// What is wrong with a duration, if anything. Apart from an empty one, every duration
/// that can be read is accepted, and besides those each whole number with a unit.
pub open spec fn duration_fault(duration: Seq<char>, field: Seq<char>) -> Option<Seq<char>> {
    let d = trimmed(duration);
    if d.len() == 0 {
        Some(field + " must not be empty"@)
    } else if duration_of(duration) is Ok {
        None
    } else {
        match unit_split(d) {
            None => Some(field + " has invalid format: "@ + d),
            Some((number, unit)) => if unsigned_value(number, u64::MAX as nat) is None {
                Some(field + " has invalid number: "@ + d)
            } else if !is_unit(unit) {
                Some(field + " has invalid unit (must be ms, s, m, or h): "@ + d)
            } else {
                None
            },
        }
    }
}

/// Whether the unit of a duration can be told apart.
pub fn unit_is_clear(duration: &str) -> (r: bool)
    ensures
        r == has_unit(duration@),
{
    let d = trim(duration);
    let n: usize = d.unicode_len();
    if n == 0 || strip_suffix(d, "ms").is_some() {
        return true;
    }
    d.get_char(n - 1) as u32 <= 127
}

/// Validate duration string format
pub fn validate_duration(duration: &str, field: &str) -> (r: Result<(), String>)
    requires
        has_unit(duration@),
    ensures
        fault_in(r) == duration_fault(duration@, field@),
        trimmed(duration@).len() == 0 ==> r is Err,
        trimmed(duration@).len() > 0 && duration_of(duration@) is Ok ==> r is Ok,
{
    let d = trim(duration);
    let n: usize = d.unicode_len();
    if n == 0 {
        return Err(message2(field, " must not be empty"));
    }
    if parse_duration(duration).is_ok() {
        return Ok(());
    }
    let (number, unit) = match strip_suffix(d, "ms") {
        Some(number) => (number, "ms"),
        None => {
            if n > 1 {
                (d.substring_char(0, n - 1), d.substring_char(n - 1, n))
            } else {
                return Err(message3(field, " has invalid format: ", d));
            }
        },
    };
    proof {
        if before_suffix(d@, "ms"@) is None {
            assert(number@ =~= d@.drop_last());
            assert(unit@ =~= seq![d@.last()]);
        }
    }
    if parse_unsigned(number, u64::MAX).is_none() {
        return Err(message3(field, " has invalid number: ", d));
    }
    if !(same(unit, "ms") || same(unit, "s") || same(unit, "m") || same(unit, "h")) {
        return Err(message3(field, " has invalid unit (must be ms, s, m, or h): ", d));
    }
    Ok(())
}

// ---------------------------------------------------------------------------
// Paths
// ---------------------------------------------------------------------------

/// The longest path, in bytes.
pub const MAX_PATH: usize = 256;

/// What is wrong with a path, if anything.
pub open spec fn path_fault(path: Seq<char>) -> Option<Seq<char>> {
    if path.len() == 0 || path[0] != '/' {
        Some("scrape.path must start with '/', got '"@ + path + "'"@)
    } else if has_double(path, '.') {
        Some("scrape.path must not contain '..' (path traversal attempt): '"@ + path + "'"@)
    } else if has_double(path, '/') {
        Some("scrape.path must not contain consecutive slashes: '"@ + path + "'"@)
    } else if path.contains('\0') {
        Some("scrape.path must not contain null bytes"@)
    } else if encode_utf8(path).len() > MAX_PATH {
        Some(
            "scrape.path too long (max 256 characters), got "@ + decimal(encode_utf8(path).len())
                + " characters"@,
        )
    } else {
        None
    }
}

/// Validate scrape path to prevent path injection/traversal attacks
pub fn validate_scrape_path(path: &str) -> (r: Result<(), String>)
    ensures
        fault_in(r) == path_fault(path@),
{
    let chars = chars_of(path);
    if chars.len() == 0 || chars[0] != '/' {
        return Err(message3("scrape.path must start with '/', got '", path, "'"));
    }
    if contains_double(&chars, '.') {
        return Err(
            message3(
                "scrape.path must not contain '..' (path traversal attempt): '",
                path,
                "'",
            ),
        );
    }
    if contains_double(&chars, '/') {
        return Err(message3("scrape.path must not contain consecutive slashes: '", path, "'"));
    }
    let at: usize = find(&chars, '\0');
    proof {
        lemma_first_of_range(path@, '\0');
        if path@.contains('\0') {
            let k = choose|k: int| 0 <= k < path@.len() && path@[k] == '\0';
            assert(first_of(path@, '\0') <= k);
        }
    }
    if at < chars.len() {
        assert(path@[at as int] == '\0');
        return Err("scrape.path must not contain null bytes".to_owned());
    }
    let bytes: usize = path.as_bytes().len();
    if bytes > MAX_PATH {
        return Err(
            message3(
                "scrape.path too long (max 256 characters), got ",
                unsigned_text(bytes as u128).as_str(),
                " characters",
            ),
        );
    }
    Ok(())
}

// ---------------------------------------------------------------------------
// Metrics
// ---------------------------------------------------------------------------

/// What is wrong with the metric at a place, if anything.
pub open spec fn metric_fault(metric: MetricSpec, i: nat) -> Option<Seq<char>> {
    if metric.metric_name@.len() == 0 {
        Some("metrics["@ + decimal(i) + "].metricName must not be empty"@)
    } else if metric.target_value@.len() == 0 {
        Some("metrics["@ + decimal(i) + "].targetValue must not be empty"@)
    } else if !is_float_literal(metric.target_value@) {
        Some(
            "metrics["@ + decimal(i)
                + "].targetValue must be a valid number: invalid float literal"@,
        )
    } else {
        None
    }
}

/// What is wrong with the first metric from a place on with which something is wrong.
pub open spec fn metrics_fault(metrics: Seq<MetricSpec>, from: nat) -> Option<Seq<char>>
    decreases metrics.len() - from,
{
    if from >= metrics.len() {
        None
    } else {
        match metric_fault(metrics[from as int], from) {
            Some(m) => Some(m),
            None => metrics_fault(metrics, from + 1),
        }
    }
}

fn validate_metric(metric: &MetricSpec, i: usize) -> (r: Result<(), String>)
    ensures
        fault_in(r) == metric_fault(*metric, i as nat),
{
    let fault = if metric.metric_name.as_str().unicode_len() == 0 {
        "].metricName must not be empty"
    } else if metric.target_value.as_str().unicode_len() == 0 {
        "].targetValue must not be empty"
    } else if !float_literal(metric.target_value.as_str()) {
        "].targetValue must be a valid number: invalid float literal"
    } else {
        return Ok(());
    };
    Err(message3("metrics[", unsigned_text(i as u128).as_str(), fault))
}

fn validate_metrics(metrics: &Vec<MetricSpec>) -> (r: Result<(), String>)
    ensures
        fault_in(r) == metrics_fault(metrics@, 0),
{
    let mut i: usize = 0;
    while i < metrics.len()
        invariant
            i <= metrics@.len(),
            metrics_fault(metrics@, 0) == metrics_fault(metrics@, i as nat),
        decreases metrics.len() - i,
    {
        if let Err(m) = validate_metric(&metrics[i], i) {
            return Err(m);
        }
        i += 1;
    }
    Ok(())
}

// ---------------------------------------------------------------------------
// Scrape configurations
// ---------------------------------------------------------------------------

/// What is wrong with where a scrape configuration points to, if anything.
pub open spec fn address_fault(scrape: ScrapeConfig) -> Option<Seq<char>> {
    if scrape.port < 1 || scrape.port > 65535 {
        Some("scrape.port must be between 1 and 65535, got "@ + decimal_int(scrape.port as int))
    } else if scrape.scheme@ != "http"@ && scrape.scheme@ != "https"@ {
        Some("scrape.scheme must be 'http' or 'https', got '"@ + scrape.scheme@ + "'"@)
    } else {
        path_fault(scrape.path@)
    }
}

/// What is wrong with a scrape configuration, if anything.
pub open spec fn scrape_fault(scrape: ScrapeConfig) -> Option<Seq<char>> {
    match address_fault(scrape) {
        Some(m) => Some(m),
        None => match duration_fault(scrape.interval@, "scrape.interval"@) {
            Some(m) => Some(m),
            None => match duration_fault(scrape.timeout@, "scrape.timeout"@) {
                Some(m) => Some(m),
                None => duration_fault(scrape.evaluation_period@, "scrape.evaluationPeriod"@),
            },
        },
    }
}

fn validate_address(scrape: &ScrapeConfig) -> (r: Result<(), String>)
    ensures
        fault_in(r) == address_fault(*scrape),
{
    if scrape.port < 1 || scrape.port > 65535 {
        return Err(
            message2(
                "scrape.port must be between 1 and 65535, got ",
                signed_text(scrape.port as i64).as_str(),
            ),
        );
    }
    if !same(scrape.scheme.as_str(), "http") && !same(scrape.scheme.as_str(), "https") {
        return Err(
            message3(
                "scrape.scheme must be 'http' or 'https', got '",
                scrape.scheme.as_str(),
                "'",
            ),
        );
    }
    validate_scrape_path(scrape.path.as_str())
}

/// Whether the units of those durations of a scrape configuration can be told apart
/// that are looked at.
pub open spec fn has_units(scrape: ScrapeConfig) -> bool {
    address_fault(scrape) is None ==> {
        &&& has_unit(scrape.interval@)
        &&& duration_fault(scrape.interval@, "scrape.interval"@) is None ==> {
            &&& has_unit(scrape.timeout@)
            &&& duration_fault(scrape.timeout@, "scrape.timeout"@) is None ==> has_unit(
                scrape.evaluation_period@,
            )
        }
    }
}

fn units_are_clear(scrape: &ScrapeConfig) -> (r: bool)
    ensures
        r == has_units(*scrape),
{
    if validate_address(scrape).is_err() {
        return true;
    }
    if !unit_is_clear(scrape.interval.as_str()) {
        return false;
    }
    if validate_duration(scrape.interval.as_str(), "scrape.interval").is_err() {
        return true;
    }
    if !unit_is_clear(scrape.timeout.as_str()) {
        return false;
    }
    if validate_duration(scrape.timeout.as_str(), "scrape.timeout").is_err() {
        return true;
    }
    unit_is_clear(scrape.evaluation_period.as_str())
}

fn validate_scrape(scrape: &ScrapeConfig) -> (r: Result<(), String>)
    requires
        has_units(*scrape),
    ensures
        fault_in(r) == scrape_fault(*scrape),
{
    if let Err(m) = validate_address(scrape) {
        return Err(m);
    }
    if let Err(m) = validate_duration(scrape.interval.as_str(), "scrape.interval") {
        return Err(m);
    }
    if let Err(m) = validate_duration(scrape.timeout.as_str(), "scrape.timeout") {
        return Err(m);
    }
    validate_duration(scrape.evaluation_period.as_str(), "scrape.evaluationPeriod")
}

// ---------------------------------------------------------------------------
// Resources
// ---------------------------------------------------------------------------

/// What is wrong with the replicas and the target of a resource, if anything.
pub open spec fn target_fault(spec: ExternalPodAutoscalerSpec) -> Option<Seq<char>> {
    if spec.min_replicas < 1 {
        Some("minReplicas must be at least 1"@)
    } else if spec.max_replicas < spec.min_replicas {
        Some(
            "maxReplicas ("@ + decimal_int(spec.max_replicas as int)
                + ") must be greater than or equal to minReplicas ("@ + decimal_int(
                spec.min_replicas as int,
            ) + ")"@,
        )
    } else if spec.scale_target_ref.name@.len() == 0 {
        Some("scaleTargetRef.name must not be empty"@)
    } else if spec.scale_target_ref.kind@.len() == 0 {
        Some("scaleTargetRef.kind must not be empty"@)
    } else if spec.metrics@.len() == 0 {
        Some("At least one metric must be specified"@)
    } else {
        None
    }
}

/// What is wrong with a resource, if anything: the first fault that is found.
pub open spec fn spec_fault(spec: ExternalPodAutoscalerSpec) -> Option<Seq<char>> {
    match target_fault(spec) {
        Some(m) => Some(m),
        None => match metrics_fault(spec.metrics@, 0) {
            Some(m) => Some(m),
            None => scrape_fault(spec.scrape),
        },
    }
}

fn validate_target(spec: &ExternalPodAutoscalerSpec) -> (r: Result<(), String>)
    ensures
        fault_in(r) == target_fault(*spec),
{
    if spec.min_replicas < 1 {
        return Err("minReplicas must be at least 1".to_owned());
    }
    if spec.max_replicas < spec.min_replicas {
        let mut m = "maxReplicas (".to_owned();
        m.append(signed_text(spec.max_replicas as i64).as_str());
        m.append(") must be greater than or equal to minReplicas (");
        m.append(signed_text(spec.min_replicas as i64).as_str());
        m.append(")");
        return Err(m);
    }
    if spec.scale_target_ref.name.as_str().unicode_len() == 0 {
        return Err("scaleTargetRef.name must not be empty".to_owned());
    }
    if spec.scale_target_ref.kind.as_str().unicode_len() == 0 {
        return Err("scaleTargetRef.kind must not be empty".to_owned());
    }
    if spec.metrics.len() == 0 {
        return Err("At least one metric must be specified".to_owned());
    }
    Ok(())
}

/// Whether a resource can be validated: the units of its durations can be told apart,
/// where nothing else is wrong with it.
pub open spec fn can_be_validated(spec: ExternalPodAutoscalerSpec) -> bool {
    target_fault(spec) is None && metrics_fault(spec.metrics@, 0) is None ==> has_units(
        spec.scrape,
    )
}

/// Whether a resource can be validated.
pub fn can_validate(epa: &ExternalPodAutoscaler) -> (r: bool)
    ensures
        r == can_be_validated(epa.spec),
{
    validate_target(&epa.spec).is_err() || validate_metrics(&epa.spec.metrics).is_err()
        || units_are_clear(&epa.spec.scrape)
}

/// Validate EPA spec
pub fn validate_epa_spec(epa: &ExternalPodAutoscaler) -> (r: Result<(), String>)
    requires
        can_be_validated(epa.spec),
    ensures
        fault_in(r) == spec_fault(epa.spec),
{
    if let Err(m) = validate_target(&epa.spec) {
        return Err(m);
    }
    if let Err(m) = validate_metrics(&epa.spec.metrics) {
        return Err(m);
    }
    validate_scrape(&epa.spec.scrape)
}

} // verus!
