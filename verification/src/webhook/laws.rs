//! What holds of admission as a whole.

use crate::apis::externalpodautoscaler::{
    ExternalPodAutoscaler, ExternalPodAutoscalerSpec, MetricSpec,
};
use crate::duration::parse_duration;
use crate::laws::{is_blank, lemma_trimmed};
use crate::number::{
    all_digits, digits_value, is_digit, is_float_literal, lower, parse_unsigned, signed_text,
    unsigned_text, without_plus, without_sign,
};
use crate::text::{
    before_suffix, has_double, is_space, lemma_first_of, lemma_strip_end, lemma_strip_start, trim,
    trimmed,
};
use crate::webhook::admission::{
    default_epa, mutate_epa, receive, review_epa, validate_epa, AdmissionError, AdmissionReview,
    ReviewStep,
};
use crate::webhook::defaults::{apply_defaults, is_defaulted};
use crate::webhook::patch::{encode_patch, generate_patch};
use crate::webhook::server::{endpoints, listen_address, webhooks_enabled, Endpoint};
use crate::webhook::validation::{
    can_be_validated, can_validate, duration_fault, has_unit, metric_fault, metrics_fault,
    path_fault, spec_fault, unit_is_clear, validate_duration, validate_epa_spec,
    validate_scrape_path, MAX_PATH,
};
use vstd::prelude::*;
use vstd::utf8::encode_utf8;

verus! {

/// Defaults are set once: a resource with its defaults is left as it is.
pub proof fn law_defaults_are_idempotent(
    given: ExternalPodAutoscaler,
    defaulted: ExternalPodAutoscaler,
)
    requires
        is_defaulted(given, defaulted),
    ensures
        is_defaulted(defaulted, defaulted),
{
    reveal_strlit("apps/v1");
    reveal_strlit("/metrics");
    reveal_strlit("15s");
    reveal_strlit("1s");
    reveal_strlit("http");
    reveal_strlit("60s");
}

proof fn lemma_seconds(d: Seq<char>, field: Seq<char>)
    requires
        2 <= d.len() <= 3,
        d.last() == 's',
        forall|i: int| 0 <= i < d.len() - 1 ==> is_digit(#[trigger] d[i]),
    ensures
        duration_fault(d, field) is None,
        has_unit(d),
{
    reveal_strlit("ms");
    reveal_strlit("s");
    let drop = |c: char| is_space(c);
    lemma_strip_start(d, drop, 0);
    assert(d.skip(0) =~= d);
    lemma_strip_end(d, drop, d.len() as int);
    assert(d.take(d.len() as int) =~= d);
    assert(trimmed(d) == d);
    assert(is_digit(d[d.len() - 2]));
    assert(d.skip(d.len() - 2)[0] != 'm');
    assert(before_suffix(d, "ms"@) is None);
    let number = d.drop_last();
    assert(seq![d.last()] =~= "s"@);
    assert(without_plus(number) == number) by {
        assert(is_digit(number[0]));
    }
    assert(all_digits(number)) by {
        assert forall|i: int| 0 <= i < number.len() implies is_digit(#[trigger] number[i]) by {
            assert(is_digit(d[i]));
        }
    }
    reveal_with_fuel(digits_value, 3);
    assert(digits_value(number) <= 99);
}

proof fn lemma_default_path()
    ensures
        path_fault("/metrics"@) is None,
{
    reveal_strlit("/metrics");
    let path = "/metrics"@;
    assert(!has_double(path, '.'));
    assert(!has_double(path, '/'));
    assert(!path.contains('\0'));
    vstd::utf8::is_ascii_chars_encode_utf8(path);
    assert(encode_utf8(path).len() == path.len());
}

/// Whether what is given of a resource is valid: each field that has a default is
/// either not given or valid, and so is everything else.
pub open spec fn given_is_valid(spec: ExternalPodAutoscalerSpec) -> bool {
    &&& spec.min_replicas >= 0
    &&& spec.max_replicas >= 1
    &&& spec.max_replicas >= spec.min_replicas
    &&& spec.scale_target_ref.name@.len() > 0
    &&& spec.scale_target_ref.kind@.len() > 0
    &&& spec.metrics@.len() > 0
    &&& metrics_fault(spec.metrics@, 0) is None
    &&& 0 <= spec.scrape.port <= 65535
    &&& spec.scrape.scheme@.len() == 0 || spec.scrape.scheme@ == "http"@ || spec.scrape.scheme@
        == "https"@
    &&& spec.scrape.path@.len() == 0 || path_fault(spec.scrape.path@) is None
    &&& given_duration(spec.scrape.interval@, "scrape.interval"@)
    &&& given_duration(spec.scrape.timeout@, "scrape.timeout"@)
    &&& given_duration(spec.scrape.evaluation_period@, "scrape.evaluationPeriod"@)
}

/// Whether a duration is not given or valid.
pub open spec fn given_duration(duration: Seq<char>, field: Seq<char>) -> bool {
    duration.len() == 0 || (has_unit(duration) && duration_fault(duration, field) is None)
}

/// The defaults are valid: a resource of which everything that is given is valid passes
/// validation once it has its defaults.
pub proof fn law_defaults_are_valid(
    given: ExternalPodAutoscaler,
    defaulted: ExternalPodAutoscaler,
)
    requires
        is_defaulted(given, defaulted),
        given_is_valid(given.spec),
    ensures
        can_be_validated(defaulted.spec),
        spec_fault(defaulted.spec) is None,
{
    reveal_strlit("15s");
    reveal_strlit("1s");
    reveal_strlit("60s");
    lemma_seconds("15s"@, "scrape.interval"@);
    lemma_seconds("1s"@, "scrape.timeout"@);
    lemma_seconds("60s"@, "scrape.evaluationPeriod"@);
    lemma_default_path();
}

proof fn lemma_given(duration: Seq<char>, field: Seq<char>)
    requires
        duration_fault(duration, field) is None,
    ensures
        duration.len() > 0,
{
    if duration.len() == 0 {
        lemma_strip_start(duration, |c: char| is_space(c), 0);
        lemma_strip_end(duration, |c: char| is_space(c), 0);
        assert(duration.skip(0) =~= duration);
        assert(duration.take(0) =~= duration);
        assert(trimmed(duration).len() == 0);
    }
}

/// Defaulting overrides nothing of a valid resource, and leaves it valid. All that it can
/// set is the group and version of the workload to scale, where none is given, and the
/// workload to scrape, where none is given.
pub proof fn law_defaults_override_nothing(
    given: ExternalPodAutoscaler,
    defaulted: ExternalPodAutoscaler,
)
    requires
        spec_fault(given.spec) is None,
        is_defaulted(given, defaulted),
    ensures
        spec_fault(defaulted.spec) is None,
        can_be_validated(defaulted.spec) == can_be_validated(given.spec),
        defaulted.metadata == given.metadata,
        defaulted.status == given.status,
        defaulted.spec.min_replicas == given.spec.min_replicas,
        defaulted.spec.max_replicas == given.spec.max_replicas,
        defaulted.spec.metrics == given.spec.metrics,
        defaulted.spec.behavior == given.spec.behavior,
        defaulted.spec.scale_target_ref.kind == given.spec.scale_target_ref.kind,
        defaulted.spec.scale_target_ref.name == given.spec.scale_target_ref.name,
        given.spec.scale_target_ref.api_version@.len() > 0
            ==> defaulted.spec.scale_target_ref.api_version@
            == given.spec.scale_target_ref.api_version@,
        given.spec.scrape_target_ref is Some ==> defaulted.spec.scrape_target_ref
            == given.spec.scrape_target_ref,
        defaulted.spec.scrape.port == given.spec.scrape.port,
        defaulted.spec.scrape.path@ == given.spec.scrape.path@,
        defaulted.spec.scrape.interval@ == given.spec.scrape.interval@,
        defaulted.spec.scrape.timeout@ == given.spec.scrape.timeout@,
        defaulted.spec.scrape.scheme@ == given.spec.scrape.scheme@,
        defaulted.spec.scrape.evaluation_period@ == given.spec.scrape.evaluation_period@,
        defaulted.spec.scrape.tls == given.spec.scrape.tls,
        defaulted.spec.scrape.aggregation_type == given.spec.scrape.aggregation_type,
{
    reveal_strlit("http");
    reveal_strlit("https");
    lemma_given(given.spec.scrape.interval@, "scrape.interval"@);
    lemma_given(given.spec.scrape.timeout@, "scrape.timeout"@);
    lemma_given(given.spec.scrape.evaluation_period@, "scrape.evaluationPeriod"@);
}

proof fn lemma_metrics_are_fine(spec: ExternalPodAutoscalerSpec, from: nat)
    requires
        from <= spec.metrics@.len(),
        metrics_fault(spec.metrics@, from) is None,
    ensures
        forall|i: int|
            from <= i < spec.metrics@.len() ==> metric_fault(
                #[trigger] spec.metrics@[i],
                i as nat,
            ) is None,
    decreases spec.metrics@.len() - from,
{
    if from < spec.metrics@.len() {
        lemma_metrics_are_fine(spec, from + 1);
    }
}

/// A resource that passes validation has a sensible range of replicas, a target, and
/// metrics whose targets are numbers; and it is scraped at a port and a path that do not
/// lead elsewhere.
pub proof fn law_admitted_resources_are_sound(spec: ExternalPodAutoscalerSpec)
    requires
        spec_fault(spec) is None,
    ensures
        1 <= spec.min_replicas <= spec.max_replicas,
        spec.scale_target_ref.name@.len() > 0,
        spec.scale_target_ref.kind@.len() > 0,
        spec.metrics@.len() > 0,
        forall|i: int|
            0 <= i < spec.metrics@.len() ==> (#[trigger] spec.metrics@[i]).metric_name@.len() > 0
                && is_float_literal(spec.metrics@[i].target_value@),
        1 <= spec.scrape.port <= 65535,
        spec.scrape.scheme@ == "http"@ || spec.scrape.scheme@ == "https"@,
        spec.scrape.path@.len() > 0 && spec.scrape.path@[0] == '/',
        !has_double(spec.scrape.path@, '.'),
        !has_double(spec.scrape.path@, '/'),
        !spec.scrape.path@.contains('\0'),
        encode_utf8(spec.scrape.path@).len() <= MAX_PATH,
{
    lemma_metrics_are_fine(spec, 0);
    assert forall|i: int| 0 <= i < spec.metrics@.len() implies (
    #[trigger] spec.metrics@[i]).metric_name@.len() > 0 && is_float_literal(
        spec.metrics@[i].target_value@,
    ) by {
        assert(metric_fault(spec.metrics@[i], i as nat) is None);
    }
}

// ---------------------------------------------------------------------------
// Validation
// ---------------------------------------------------------------------------

/// A path is accepted exactly where it begins with a slash, has no two points and no two
/// slashes in a row and no null character, and is at most 256 bytes long.
pub proof fn law_accepted_paths(path: &str, r: Result<(), String>)
    requires
        call_ensures(validate_scrape_path, (path,), r),
    ensures
        r is Ok == {
            &&& path@.len() > 0 && path@[0] == '/'
            &&& forall|i: int|
                0 <= i < path@.len() - 1 ==> !(#[trigger] path@[i] == '.' && path@[i + 1] == '.')
            &&& forall|i: int|
                0 <= i < path@.len() - 1 ==> !(#[trigger] path@[i] == '/' && path@[i + 1] == '/')
            &&& forall|i: int| 0 <= i < path@.len() ==> #[trigger] path@[i] != '\0'
            &&& encode_utf8(path@).len() <= 256
        },
{
    if path@.contains('\0') {
        let i = choose|i: int| 0 <= i < path@.len() && path@[i] == '\0';
        assert(path@[i] == '\0');
    } else {
        assert forall|i: int| 0 <= i < path@.len() implies #[trigger] path@[i] != '\0' by {
            if path@[i] == '\0' {
                assert(path@.contains('\0'));
            }
        }
    }
}

/// A blank duration is not accepted. Any other is that can be read.
pub proof fn law_accepted_durations(
    duration: &str,
    field: &str,
    read: Result<u128, String>,
    r: Result<(), String>,
)
    requires
        has_unit(duration@),
        call_ensures(validate_duration, (duration, field), r),
        call_ensures(parse_duration, (duration,), read),
    ensures
        is_blank(duration@) ==> r is Err && r->Err_0@ == field@ + " must not be empty"@,
        !is_blank(duration@) && read is Ok ==> r is Ok,
{
    let ends = lemma_trimmed(duration@);
    if is_blank(duration@) {
        if ends.0 < ends.1 {
            assert(is_space(duration@[ends.0]));
        }
        assert(trimmed(duration@).len() == 0);
    } else {
        let i = choose|i: int| 0 <= i < duration@.len() && !is_space(#[trigger] duration@[i]);
        assert(ends.0 <= i < ends.1);
        assert(trimmed(duration@).len() > 0);
    }
}

/// A whole number of milliseconds, seconds, minutes or hours is accepted. A duration that
/// cannot be read is not accepted where it is no such number.
pub proof fn law_whole_durations(
    duration: &str,
    number: &str,
    unit: Seq<char>,
    field: &str,
    read: Result<u128, String>,
    n: Option<u64>,
    r: Result<(), String>,
)
    requires
        has_unit(duration@),
        call_ensures(validate_duration, (duration, field), r),
        call_ensures(parse_duration, (duration,), read),
        call_ensures(parse_unsigned, (number, u64::MAX), n),
        duration@ == number@ + unit,
        number@.len() > 0 && forall|i: int|
            0 <= i < number@.len() ==> '0' <= #[trigger] number@[i] <= '9',
        unit == seq!['m', 's'] || (unit.len() == 1 && 'a' <= unit[0] <= 'z'),
    ensures
        n is Some && (unit == seq!['m', 's'] || unit == seq!['s'] || unit == seq!['m'] || unit
            == seq!['h']) ==> r is Ok,
        read is Err && (n is None || !(unit == seq!['m', 's'] || unit == seq!['s'] || unit
            == seq!['m'] || unit == seq!['h'])) ==> r is Err,
{
    reveal_strlit("ms");
    reveal_strlit("s");
    reveal_strlit("m");
    reveal_strlit("h");
    let d = duration@;
    let drop = |c: char| is_space(c);
    assert('0' <= number@[0] <= '9');
    assert(d[0] == number@[0]);
    assert(d.last() == unit.last());
    lemma_strip_start(d, drop, 0);
    assert(d.skip(0) =~= d);
    lemma_strip_end(d, drop, d.len() as int);
    assert(d.take(d.len() as int) =~= d);
    assert(trimmed(d) == d);
    assert("ms"@ =~= seq!['m', 's']);
    assert("s"@ =~= seq!['s']);
    assert("m"@ =~= seq!['m']);
    assert("h"@ =~= seq!['h']);
    if unit == seq!['m', 's'] {
        assert(d.skip(d.len() - 2) =~= "ms"@);
        assert(d.take(d.len() - 2) =~= number@);
    } else {
        let k = number@.len() - 1;
        assert('0' <= number@[k] <= '9');
        assert(d[d.len() - 2] == number@[k]);
        assert(d.skip(d.len() - 2)[0] == number@[k]);
        assert(before_suffix(d, "ms"@) is None);
        assert(d.drop_last() =~= number@);
        assert(seq![d.last()] =~= unit);
    }
}

proof fn lemma_no_metric_fault(metrics: Seq<MetricSpec>, from: nat)
    requires
        from <= metrics.len(),
        forall|i: int|
            from <= i < metrics.len() ==> (#[trigger] metrics[i]).metric_name@.len() > 0
                && is_float_literal(metrics[i].target_value@),
    ensures
        metrics_fault(metrics, from) is None,
    decreases metrics.len() - from,
{
    if from < metrics.len() {
        let m = metrics[from as int];
        lemma_literals_are_not_empty(m.target_value@);
        lemma_no_metric_fault(metrics, from + 1);
    }
}

proof fn lemma_literals_are_not_empty(s: Seq<char>)
    requires
        is_float_literal(s),
    ensures
        s.len() > 0,
{
    if s.len() == 0 {
        assert(without_sign(s) == s);
        assert(s.map_values(|c: char| lower(c)).len() == 0);
        lemma_first_of(s, 'e', 0);
        lemma_first_of(s, 'E', 0);
        lemma_first_of(s, '.', 0);
    }
}

/// A resource is accepted exactly where it has a range of replicas from one on, a workload
/// to scale and metrics with names and numbers as targets, and is scraped at a port, with
/// a scheme, at a path and at durations that are accepted.
pub proof fn law_accepted_resources(
    epa: &ExternalPodAutoscaler,
    path: &str,
    interval: &str,
    timeout: &str,
    period: &str,
    a: Result<(), String>,
    b: Result<(), String>,
    c: Result<(), String>,
    d: Result<(), String>,
    r: Result<(), String>,
)
    requires
        can_be_validated(epa.spec),
        has_unit(interval@) && has_unit(timeout@) && has_unit(period@),
        call_ensures(validate_epa_spec, (epa,), r),
        path@ == epa.spec.scrape.path@,
        interval@ == epa.spec.scrape.interval@,
        timeout@ == epa.spec.scrape.timeout@,
        period@ == epa.spec.scrape.evaluation_period@,
        call_ensures(validate_scrape_path, (path,), a),
        call_ensures(validate_duration, (interval, "scrape.interval"), b),
        call_ensures(validate_duration, (timeout, "scrape.timeout"), c),
        call_ensures(validate_duration, (period, "scrape.evaluationPeriod"), d),
    ensures
        r is Ok == {
            &&& 1 <= epa.spec.min_replicas <= epa.spec.max_replicas
            &&& epa.spec.scale_target_ref.name@.len() > 0
            &&& epa.spec.scale_target_ref.kind@.len() > 0
            &&& epa.spec.metrics@.len() > 0
            &&& forall|i: int|
                0 <= i < epa.spec.metrics@.len() ==> (
                #[trigger] epa.spec.metrics@[i]).metric_name@.len() > 0 && is_float_literal(
                    epa.spec.metrics@[i].target_value@,
                )
            &&& 1 <= epa.spec.scrape.port <= 65535
            &&& epa.spec.scrape.scheme@ == "http"@ || epa.spec.scrape.scheme@ == "https"@
            &&& a is Ok
            &&& b is Ok
            &&& c is Ok
            &&& d is Ok
        },
        r is Err && epa.spec.min_replicas < 1 ==> r->Err_0@ == "minReplicas must be at least 1"@,
{
    if r is Ok {
        law_admitted_resources_are_sound(epa.spec);
    } else if forall|i: int|
        0 <= i < epa.spec.metrics@.len() ==> (
        #[trigger] epa.spec.metrics@[i]).metric_name@.len() > 0 && is_float_literal(
            epa.spec.metrics@[i].target_value@,
        ) {
        lemma_no_metric_fault(epa.spec.metrics@, 0);
    }
}

// ---------------------------------------------------------------------------
// Defaults
// ---------------------------------------------------------------------------

/// What a resource does not give is set to its default, and what it gives stays.
pub proof fn law_defaults(epa: &mut ExternalPodAutoscaler)
    requires
        call_ensures(apply_defaults, (epa,), ()),
    ensures
        ({
            let given = old(epa).spec;
            let set = final(epa).spec;
            &&& set.min_replicas == (if given.min_replicas == 0 {
                1
            } else {
                given.min_replicas
            })
            &&& set.max_replicas == given.max_replicas
            &&& set.metrics == given.metrics
            &&& set.behavior == given.behavior
            &&& set.scale_target_ref.name@ == given.scale_target_ref.name@
            &&& set.scale_target_ref.kind@ == given.scale_target_ref.kind@
            &&& set.scale_target_ref.api_version@ == (if given.scale_target_ref.api_version@.len()
                == 0 {
                "apps/v1"@
            } else {
                given.scale_target_ref.api_version@
            })
            &&& set.scrape_target_ref is Some
            &&& given.scrape_target_ref is Some ==> set.scrape_target_ref
                == given.scrape_target_ref
            &&& given.scrape_target_ref is None ==> set.scrape_target_ref->0
                == set.scale_target_ref
            &&& set.scrape.port == (if given.scrape.port == 0 {
                8080
            } else {
                given.scrape.port
            })
            &&& set.scrape.path@ == (if given.scrape.path@.len() == 0 {
                "/metrics"@
            } else {
                given.scrape.path@
            })
            &&& set.scrape.interval@ == (if given.scrape.interval@.len() == 0 {
                "15s"@
            } else {
                given.scrape.interval@
            })
            &&& set.scrape.timeout@ == (if given.scrape.timeout@.len() == 0 {
                "1s"@
            } else {
                given.scrape.timeout@
            })
            &&& set.scrape.scheme@ == (if given.scrape.scheme@.len() == 0 {
                "http"@
            } else {
                given.scrape.scheme@
            })
            &&& set.scrape.evaluation_period@ == (if given.scrape.evaluation_period@.len() == 0 {
                "60s"@
            } else {
                given.scrape.evaluation_period@
            })
            &&& set.scrape.tls == given.scrape.tls
            &&& set.scrape.aggregation_type == given.scrape.aggregation_type
        }),
        final(epa).metadata == old(epa).metadata,
        final(epa).status == old(epa).status,
{
}

// ---------------------------------------------------------------------------
// Reviews
// ---------------------------------------------------------------------------

/// A review without a request is a bad request. One without an object is allowed as it
/// is; else the object is read, for the request that it came with.
pub proof fn law_reviews(review: AdmissionReview, r: Result<ReviewStep, AdmissionError>)
    requires
        call_ensures(receive, (review,), r),
    ensures
        review.request is None <==> r is Err,
        r is Err ==> r->Err_0 is BadRequest,
        review.request matches Some(request) ==> {
            &&& request.object is None ==> (r matches Ok(ReviewStep::Answer(a))
                && a.response is Some && a.response->0.allowed && a.response->0.uid@
                == request.uid@ && a.response->0.patch is None && a.response->0.status is None)
            &&& request.object matches Some(text) ==> (r matches Ok(
                ReviewStep::Read { uid, object },
            ) && uid@ == request.uid@ && object@ == text@)
        },
{
}

/// A resource is allowed exactly where it is accepted. Otherwise the answer says why, and
/// it is the answer to the request that was made.
pub proof fn law_answers_to_validation(
    uid: String,
    epa: &ExternalPodAutoscaler,
    checked: Result<(), String>,
    r: Option<Result<AdmissionReview, AdmissionError>>,
    given: Result<ExternalPodAutoscaler, String>,
)
    requires
        call_ensures(review_epa, (uid, given), r),
        given matches Ok(e) ==> e == *epa && can_be_validated(epa.spec) && call_ensures(
            validate_epa_spec,
            (epa,),
            checked,
        ),
    ensures
        r is Some,
        given is Err ==> r->0 is Err && r->0->Err_0 is BadRequest,
        given is Ok ==> r->0 is Ok && r->0->Ok_0.response is Some && ({
            let answer = r->0->Ok_0.response->0;
            &&& answer.uid@ == uid@
            &&& answer.allowed == checked is Ok
            &&& answer.patch is None
            &&& answer.status is None == checked is Ok
            &&& checked is Err ==> answer.status->0.code == 400 && answer.status->0.message@
                == checked->Err_0@
        }),
{
}

/// A mutation is always allowed. It comes with a patch in base64 exactly where the object
/// with its defaults differs from the one that was given, and says then that it is one.
pub proof fn law_answers_to_mutation(
    uid: String,
    original: &str,
    text: String,
    modified: &str,
    patch: Option<String>,
    r: Result<AdmissionReview, AdmissionError>,
)
    requires
        call_ensures(mutate_epa, (uid, original, Ok::<String, String>(text)), r),
        modified@ == text@,
        call_ensures(generate_patch, (original, modified), patch),
    ensures
        r is Ok && r->Ok_0.response is Some,
        ({
            let answer = r->Ok_0.response->0;
            &&& answer.uid@ == uid@
            &&& answer.allowed
            &&& answer.status is None
            &&& answer.patch is Some == patch is Some
            &&& answer.patch_type is Some == patch is Some
            &&& patch is Some ==> answer.patch->0@ == patch->0@ && answer.patch_type->0@
                == "JSONPatch"@
            &&& original@ == text@ ==> answer.patch is None
        }),
{
}

/// An object that cannot be read is a bad request, and one that cannot be written an error
/// of the server. One that can be read is given its defaults.
pub proof fn law_objects_of_mutations(
    given: Result<ExternalPodAutoscaler, String>,
    r: Result<ExternalPodAutoscaler, AdmissionError>,
    uid: String,
    original: &str,
    reason: String,
    failed: Result<AdmissionReview, AdmissionError>,
)
    requires
        call_ensures(default_epa, (given,), r),
        call_ensures(mutate_epa, (uid, original, Err::<String, String>(reason)), failed),
    ensures
        r is Ok == given is Ok,
        r is Err ==> r->Err_0 is BadRequest,
        r is Ok ==> r->Ok_0.spec.max_replicas == given->Ok_0.spec.max_replicas
            && r->Ok_0.spec.metrics == given->Ok_0.spec.metrics && r->Ok_0.metadata
            == given->Ok_0.metadata && r->Ok_0.spec.scrape_target_ref is Some,
        failed is Err && failed->Err_0 is InternalError,
{
}

/// A difference without operations needs no patch; any other is handed on whole.
pub proof fn law_patches(n: usize, text: String, other: usize, r: Option<String>, s: Option<String>)
    requires
        call_ensures(encode_patch, (Some((n, text)),), r),
        call_ensures(encode_patch, (Some((other, text)),), s),
    ensures
        r is None <==> n == 0,
        n > 0 && other > 0 ==> r->0@ == s->0@,
{
}

/// The status codes of errors.
pub proof fn law_codes_of_errors(error: &AdmissionError, r: u16)
    requires
        call_ensures(AdmissionError::status_code, (error,), r),
    ensures
        r == 400 <==> *error is BadRequest,
        r == 500 <==> *error is InternalError,
{
}

// ---------------------------------------------------------------------------
// The server
// ---------------------------------------------------------------------------

/// The metrics API is always offered; admission is unless it is switched off by `false`.
pub proof fn law_offers(setting: Option<&str>, enabled: bool, offered: Vec<Endpoint>)
    requires
        call_ensures(webhooks_enabled, (setting,), enabled),
        call_ensures(endpoints, (enabled,), offered),
    ensures
        enabled == (setting is None || setting->0@ != "false"@),
        offered@.contains(Endpoint::Discovery),
        offered@.contains(Endpoint::Metric),
        offered@.contains(Endpoint::Validate) == enabled,
        offered@.contains(Endpoint::Mutate) == enabled,
{
    assert(offered@[0] == Endpoint::Discovery);
    assert(offered@[1] == Endpoint::Metric);
    if enabled {
        assert(offered@[2] == Endpoint::Validate);
        assert(offered@[3] == Endpoint::Mutate);
    }
}

/// The server listens at the port on every address.
pub proof fn law_listens(port: u16, text: String, r: String)
    requires
        call_ensures(listen_address, (port,), r),
        call_ensures(unsigned_text, (port as u128,), text),
    ensures
        r@ == "0.0.0.0:"@ + text@,
{
}

/// No two endpoints have the same path, and each path begins with a slash.
pub proof fn law_paths_of_endpoints(a: Endpoint, b: Endpoint, p: &'static str, q: &'static str)
    requires
        call_ensures(Endpoint::path, (a,), p),
        call_ensures(Endpoint::path, (b,), q),
    ensures
        p@ == q@ <==> a == b,
        p@.len() > 0 && p@[0] == '/',
{
    reveal_strlit("/apis/external.metrics.k8s.io/v1beta1");
    reveal_strlit("/apis/external.metrics.k8s.io/v1beta1/namespaces/:namespace/:metric_name");
    reveal_strlit("/validate-ctx-sh-v1beta1-externalpodautoscaler");
    reveal_strlit("/mutate-ctx-sh-v1beta1-externalpodautoscaler");
    if p@ == q@ {
        assert(p@.len() == q@.len());
        assert(p@[1] == q@[1]);
    }
}

/// The unit of a duration can be told apart where the duration is of ASCII characters. A
/// resource can be validated where that holds of its durations.
pub proof fn law_units_are_clear(
    duration: &str,
    r: bool,
    epa: &ExternalPodAutoscaler,
    can: bool,
)
    requires
        call_ensures(unit_is_clear, (duration,), r),
        call_ensures(can_validate, (epa,), can),
    ensures
        duration@.len() > 0 && !r ==> exists|i: int|
            0 <= i < duration@.len() && (#[trigger] duration@[i]) as u32 > 127,
        duration@.len() > 0 && !is_space(duration@[0]) && !is_space(duration@.last())
            ==> r == (duration@.last() as u32 <= 127),
        has_unit(epa.spec.scrape.interval@) && has_unit(epa.spec.scrape.timeout@) && has_unit(
            epa.spec.scrape.evaluation_period@,
        ) ==> can,
        epa.spec.min_replicas < 1 ==> can,
{
    reveal_strlit("ms");
    let d = duration@;
    let ends = lemma_trimmed(d);
    if d.len() > 0 && !r {
        assert(trimmed(d).len() > 0);
        assert(d[ends.1 - 1] == trimmed(d).last());
    }
    if d.len() > 0 && !is_space(d[0]) && !is_space(d.last()) {
        assert(ends.0 == 0 && ends.1 == d.len());
        assert(trimmed(d) =~= d);
        if before_suffix(d, "ms"@) is Some {
            assert(d.skip(d.len() - 2).last() == "ms"@.last());
            assert(d.last() == 's');
        }
    }
}

/// A handler answers a request as its review does: the resource is allowed exactly where
/// nothing is wrong with it, under the request's own ID.
pub proof fn law_validated_resources(
    uid: String,
    epa: &ExternalPodAutoscaler,
    given: Result<ExternalPodAutoscaler, String>,
    checked: Result<(), String>,
    r: Result<AdmissionReview, AdmissionError>,
)
    requires
        given == Ok::<ExternalPodAutoscaler, String>(*epa),
        can_be_validated(epa.spec),
        call_ensures(validate_epa, (uid, given), r),
        call_ensures(validate_epa_spec, (epa,), checked),
    ensures
        r is Ok && r->Ok_0.response is Some,
        r->Ok_0.response->0.allowed == checked is Ok,
        r->Ok_0.response->0.uid@ == uid@,
        checked is Err ==> r->Ok_0.response->0.status is Some
            && r->Ok_0.response->0.status->0.message@ == checked->Err_0@,
{
}

// ---------------------------------------------------------------------------
// Reasons of refusals
// ---------------------------------------------------------------------------

/// The first thing that is wrong with a path is reported, with the path.
pub proof fn law_reasons_against_paths(path: &str, r: Result<(), String>, n: u128, length: String)
    requires
        call_ensures(validate_scrape_path, (path,), r),
        n == encode_utf8(path@).len(),
        call_ensures(unsigned_text, (n,), length),
    ensures
        ({
            let twice = |c: char|
                exists|i: int|
                    0 <= i < path@.len() - 1 && #[trigger] path@[i] == c && path@[i + 1] == c;
            let rooted = path@.len() > 0 && path@[0] == '/';
            &&& !rooted ==> r is Err && r->Err_0@ == "scrape.path must start with '/', got '"@
                + path@ + "'"@
            &&& rooted && twice('.') ==> r is Err && r->Err_0@
                == "scrape.path must not contain '..' (path traversal attempt): '"@ + path@ + "'"@
            &&& rooted && !twice('.') && twice('/') ==> r is Err && r->Err_0@
                == "scrape.path must not contain consecutive slashes: '"@ + path@ + "'"@
            &&& rooted && !twice('.') && !twice('/') && path@.contains('\0') ==> r is Err
                && r->Err_0@ == "scrape.path must not contain null bytes"@
            &&& rooted && !twice('.') && !twice('/') && !path@.contains('\0') && n > 256 ==> r is Err
                && r->Err_0@ == "scrape.path too long (max 256 characters), got "@ + length@
                + " characters"@
        }),
{
}

/// What is wrong with a duration that cannot be read is reported with its field and without
/// the whitespace around it: that it is a single character, that what stands before its
/// unit is no number, or that its unit is none.
pub proof fn law_reasons_against_durations(
    duration: &str,
    trimmed_text: &str,
    number: &str,
    field: &str,
    read: Result<u128, String>,
    n: Option<u64>,
    r: Result<(), String>,
)
    requires
        has_unit(duration@),
        call_ensures(validate_duration, (duration, field), r),
        call_ensures(parse_duration, (duration,), read),
        call_ensures(trim, (duration,), trimmed_text),
        call_ensures(parse_unsigned, (number, u64::MAX), n),
        read is Err,
    ensures
        trimmed_text@.len() == 1 ==> r is Err && r->Err_0@ == field@ + " has invalid format: "@
            + trimmed_text@,
        ({
            let d = trimmed_text@;
            let ends_in_ms = d.len() > 1 && d[d.len() - 2] == 'm' && d.last() == 's';
            let cut = if ends_in_ms {
                d.len() - 2
            } else {
                d.len() - 1
            };
            d.len() > 1 && number@ == d.take(cut) ==> {
                &&& n is None ==> r is Err && r->Err_0@ == field@ + " has invalid number: "@ + d
                &&& n is Some && !(d.last() == 's' || d.last() == 'm' || d.last() == 'h')
                    ==> r is Err && r->Err_0@ == field@
                    + " has invalid unit (must be ms, s, m, or h): "@ + d
                &&& n is Some && (d.last() == 's' || d.last() == 'm' || d.last() == 'h') ==> r is Ok
            }
        }),
{
    reveal_strlit("ms");
    reveal_strlit("s");
    reveal_strlit("m");
    reveal_strlit("h");
    let d = trimmed_text@;
    assert(d == trimmed(duration@));
    assert("s"@ =~= seq!['s']);
    assert("m"@ =~= seq!['m']);
    assert("h"@ =~= seq!['h']);
    if d.len() > 1 {
        assert(d.skip(d.len() - 2)[0] == d[d.len() - 2]);
        assert(d.skip(d.len() - 2)[1] == d.last());
        let one = seq![d.last()];
        assert(one[0] == d.last());
        if d[d.len() - 2] == 'm' && d.last() == 's' {
            assert(d.skip(d.len() - 2) =~= "ms"@);
        } else {
            assert(before_suffix(d, "ms"@) is None);
            assert(d.take(d.len() - 1) =~= d.drop_last());
            assert("ms"@.len() == 2 && one.len() == 1);
        }
    }
}

/// The first thing that is wrong with the target of a resource is reported.
pub proof fn law_reasons_against_targets(
    epa: &ExternalPodAutoscaler,
    least: String,
    greatest: String,
    r: Result<(), String>,
)
    requires
        can_be_validated(epa.spec),
        call_ensures(validate_epa_spec, (epa,), r),
        call_ensures(signed_text, (epa.spec.min_replicas as i64,), least),
        call_ensures(signed_text, (epa.spec.max_replicas as i64,), greatest),
    ensures
        ({
            let spec = epa.spec;
            let ranged = 1 <= spec.min_replicas <= spec.max_replicas;
            let named = ranged && spec.scale_target_ref.name@.len() > 0;
            let kind = named && spec.scale_target_ref.kind@.len() > 0;
            &&& 1 <= spec.min_replicas && spec.max_replicas < spec.min_replicas ==> r is Err
                && r->Err_0@ == "maxReplicas ("@ + greatest@
                + ") must be greater than or equal to minReplicas ("@ + least@ + ")"@
            &&& ranged && !named ==> r is Err && r->Err_0@
                == "scaleTargetRef.name must not be empty"@
            &&& named && !kind ==> r is Err && r->Err_0@ == "scaleTargetRef.kind must not be empty"@
            &&& kind && spec.metrics@.len() == 0 ==> r is Err && r->Err_0@
                == "At least one metric must be specified"@
        }),
{
}

proof fn lemma_first_metric_fault(metrics: Seq<MetricSpec>, from: nat, i: nat)
    requires
        from <= i < metrics.len(),
        forall|j: int|
            from <= j < i ==> (#[trigger] metrics[j]).metric_name@.len() > 0 && is_float_literal(
                metrics[j].target_value@,
            ),
    ensures
        metric_fault(metrics[i as int], i) is Some ==> metrics_fault(metrics, from)
            == metric_fault(metrics[i as int], i),
    decreases i - from,
{
    if from < i {
        lemma_literals_are_not_empty(metrics[from as int].target_value@);
        lemma_first_metric_fault(metrics, from + 1, i);
    }
}

/// The first metric with which something is wrong is reported by its place, where nothing
/// is wrong with the target.
pub proof fn law_reasons_against_metrics(
    epa: &ExternalPodAutoscaler,
    i: usize,
    place: String,
    r: Result<(), String>,
)
    requires
        can_be_validated(epa.spec),
        call_ensures(validate_epa_spec, (epa,), r),
        call_ensures(unsigned_text, (i as u128,), place),
        1 <= epa.spec.min_replicas <= epa.spec.max_replicas,
        epa.spec.scale_target_ref.name@.len() > 0,
        epa.spec.scale_target_ref.kind@.len() > 0,
        i < epa.spec.metrics@.len(),
        forall|j: int|
            0 <= j < i ==> (#[trigger] epa.spec.metrics@[j]).metric_name@.len() > 0
                && is_float_literal(epa.spec.metrics@[j].target_value@),
    ensures
        ({
            let metric = epa.spec.metrics@[i as int];
            &&& metric.metric_name@.len() == 0 ==> r is Err && r->Err_0@ == "metrics["@ + place@
                + "].metricName must not be empty"@
            &&& metric.metric_name@.len() > 0 && metric.target_value@.len() == 0 ==> r is Err
                && r->Err_0@ == "metrics["@ + place@ + "].targetValue must not be empty"@
            &&& metric.metric_name@.len() > 0 && metric.target_value@.len() > 0
                && !is_float_literal(metric.target_value@) ==> r is Err && r->Err_0@ == "metrics["@
                + place@ + "].targetValue must be a valid number: invalid float literal"@
        }),
{
    lemma_first_metric_fault(epa.spec.metrics@, 0, i as nat);
}

/// What is wrong with the scraping of a resource is reported where nothing is wrong with
/// its target and its metrics: first its port, then its scheme, its path, its interval, its
/// timeout and its evaluation period.
pub proof fn law_reasons_against_scraping(
    epa: &ExternalPodAutoscaler,
    port: String,
    path: &str,
    interval: &str,
    timeout: &str,
    period: &str,
    a: Result<(), String>,
    b: Result<(), String>,
    c: Result<(), String>,
    d: Result<(), String>,
    r: Result<(), String>,
)
    requires
        can_be_validated(epa.spec),
        has_unit(interval@) && has_unit(timeout@) && has_unit(period@),
        call_ensures(validate_epa_spec, (epa,), r),
        call_ensures(signed_text, (epa.spec.scrape.port as i64,), port),
        path@ == epa.spec.scrape.path@,
        interval@ == epa.spec.scrape.interval@,
        timeout@ == epa.spec.scrape.timeout@,
        period@ == epa.spec.scrape.evaluation_period@,
        call_ensures(validate_scrape_path, (path,), a),
        call_ensures(validate_duration, (interval, "scrape.interval"), b),
        call_ensures(validate_duration, (timeout, "scrape.timeout"), c),
        call_ensures(validate_duration, (period, "scrape.evaluationPeriod"), d),
        1 <= epa.spec.min_replicas <= epa.spec.max_replicas,
        epa.spec.scale_target_ref.name@.len() > 0,
        epa.spec.scale_target_ref.kind@.len() > 0,
        epa.spec.metrics@.len() > 0,
        forall|j: int|
            0 <= j < epa.spec.metrics@.len() ==> (
            #[trigger] epa.spec.metrics@[j]).metric_name@.len() > 0 && is_float_literal(
                epa.spec.metrics@[j].target_value@,
            ),
    ensures
        ({
            let scrape = epa.spec.scrape;
            let reached = 1 <= scrape.port <= 65535;
            let spoken = reached && (scrape.scheme@ == "http"@ || scrape.scheme@ == "https"@);
            &&& !reached ==> r is Err && r->Err_0@ == "scrape.port must be between 1 and 65535, got "@
                + port@
            &&& reached && !spoken ==> r is Err && r->Err_0@
                == "scrape.scheme must be 'http' or 'https', got '"@ + scrape.scheme@ + "'"@
            &&& spoken && a is Err ==> r is Err && r->Err_0@ == a->Err_0@
            &&& spoken && a is Ok && b is Err ==> r is Err && r->Err_0@ == b->Err_0@
            &&& spoken && a is Ok && b is Ok && c is Err ==> r is Err && r->Err_0@ == c->Err_0@
            &&& spoken && a is Ok && b is Ok && c is Ok && d is Err ==> r is Err && r->Err_0@
                == d->Err_0@
        }),
{
    lemma_no_metric_fault(epa.spec.metrics@, 0);
}

} // verus!
