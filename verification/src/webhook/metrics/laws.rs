//! What holds of the external metrics API as a whole.

use crate::apis::externalpodautoscaler::AggregationType;
use crate::duration::elapsed;
use crate::membership::manager::MembershipManager;
use crate::membership::ownership::EpaOwnership;
use crate::number::signed_text;
use crate::store::ops::{windows_listed, MetricsStore, StoreView};
use crate::store::types::{window_key, LabeledSample, MetricConfig, MetricType, SampleView};
use crate::store::window::{behind, MetricWindow};
use crate::text::{last_of, lemma_last_of, views};
use crate::webhook::metrics::aggregation::{
    aggregate_metric, aggregate_samples, calculate_rate, metric_plan, middle_places, plan_pod,
    plan_views, pod_plan, succeeded, values_of, PodPlan,
};
use crate::webhook::metrics::handlers::{
    after_route, answers_from, build_external_metric_name, choose_route, external_name, falls_back,
    forward_url, forwarded, get_external_metric, has_windows, hold_value, list_from, local_step, named_metric,
    parse_external_metric_name, respond, route_for, route_label, ApiError, LocalStep,
    MetricRequest, Reply, Route, RouteView,
};
use crate::webhook::types::ExternalMetricValueList;
use vstd::prelude::*;

verus! {

// ---------------------------------------------------------------------------
// Names of external metrics
// ---------------------------------------------------------------------------

/// A name that was built for a metric of a resource is read as that metric of that
/// resource, whatever hyphens are in the names of the resource and the namespace.
pub proof fn law_metric_name_round_trip(
    epa_name: Seq<char>,
    namespace: Seq<char>,
    metric: Seq<char>,
)
    requires
        epa_name.len() > 0,
        metric.len() > 0,
        !metric.contains('-'),
    ensures
        named_metric(namespace, external_name(epa_name, namespace, metric)) == Some(
            (epa_name, metric),
        ),
{
    reveal_strlit("-");
    let name = external_name(epa_name, namespace, metric);
    let head = epa_name + "-"@ + namespace;
    let at = head.len() as int;
    assert forall|j: int| at < j < name.len() implies name[j] != '-' by {
        assert(name[j] == metric[j - at - 1]);
    }
    assert(name[at] == '-');
    lemma_last_of(name, '-', at);
    assert(name.take(at) =~= head);
    assert(name.skip(at + 1) =~= metric);
    let tail = "-"@ + namespace;
    assert(head =~= epa_name + tail);
    assert(head.skip(head.len() - tail.len()) =~= tail);
    assert(head.take(head.len() - tail.len()) =~= epa_name);
}

/// A name that is read as a metric of a resource is the one that is built for it, so
/// no two names ask for the same.
pub proof fn law_metric_name_is_unique(namespace: Seq<char>, name: Seq<char>)
    requires
        named_metric(namespace, name) is Some,
    ensures
        ({
            let (epa_name, metric) = named_metric(namespace, name)->0;
            &&& name == external_name(epa_name, namespace, metric)
            &&& epa_name.len() > 0
            &&& metric.len() > 0
            &&& !metric.contains('-')
        }),
{
    reveal_strlit("-");
    let at = last_of(name, '-');
    lemma_last_of_range(name, '-');
    let (epa_name, metric) = named_metric(namespace, name)->0;
    let tail = "-"@ + namespace;
    let head = name.take(at);
    assert(head =~= epa_name + tail);
    assert(name =~= head + "-"@ + metric);
    assert(name =~= external_name(epa_name, namespace, metric));
    if metric.contains('-') {
        let j = choose|j: int| 0 <= j < metric.len() && metric[j] == '-';
        assert(name[at + 1 + j] == '-');
        assert(false);
    }
}

proof fn lemma_last_of_range(s: Seq<char>, c: char)
    ensures
        -1 <= last_of(s, c) < s.len(),
        last_of(s, c) >= 0 ==> s[last_of(s, c)] == c,
        forall|j: int| last_of(s, c) < j < s.len() ==> s[j] != c,
    decreases s.len(),
{
    if s.len() > 0 && s.last() != c {
        lemma_last_of_range(s.drop_last(), c);
        assert forall|j: int| last_of(s, c) < j < s.len() implies s[j] != c by {
            if j < s.len() - 1 {
                assert(s.drop_last()[j] == s[j]);
            }
        }
    }
}

// ---------------------------------------------------------------------------
// Forwarding
// ---------------------------------------------------------------------------

/// A replica that serves answers itself, and no replica forwards a request to itself.
pub proof fn law_never_forwards_to_itself(
    serves: bool,
    owner: Option<Seq<char>>,
    previous: Option<Seq<char>>,
    my_id: Seq<char>,
)
    ensures
        route_for(serves, owner, previous, my_id) is Local <==> serves,
        route_for(serves, owner, previous, my_id) matches RouteView::Forward { target, .. }
            ==> target != my_id,
{
}

/// The replica to which a replica forwards, where all of them see the same owner and
/// the same predecessor.
pub open spec fn next_hop(
    serving: Set<Seq<char>>,
    owner: Option<Seq<char>>,
    previous: Option<Seq<char>>,
    at: Seq<char>,
) -> Option<Seq<char>> {
    match route_for(serving.contains(at), owner, previous, at) {
        RouteView::Forward { target, .. } => Some(target),
        _ => None,
    }
}

/// Where the replicas see the same owner and the same predecessor, a request is
/// forwarded at most twice, to the owner and from there to the predecessor, and never
/// comes back to where it was. At least one of the replicas that the request can reach
/// serves, or the owner has no predecessor.
pub proof fn law_at_most_two_hops(
    serving: Set<Seq<char>>,
    owner: Option<Seq<char>>,
    previous: Option<Seq<char>>,
    first: Seq<char>,
)
    requires
        match (owner, previous) {
            (Some(o), Some(p)) => p == o || serving.contains(first) || serving.contains(o)
                || serving.contains(p),
            _ => true,
        },
    ensures
        next_hop(serving, owner, previous, first) matches Some(second) ==> second != first && (
        next_hop(serving, owner, previous, second) matches Some(third) ==> third != second && third
            != first && next_hop(serving, owner, previous, third) is None),
{
}

/// A request that reaches the owner is answered by it once it serves, and by its
/// predecessor before.
pub proof fn law_owner_or_predecessor_answers(
    serving: Set<Seq<char>>,
    owner: Seq<char>,
    previous: Seq<char>,
)
    requires
        previous != owner,
    ensures
        next_hop(serving, Some(owner), Some(previous), owner) == (if serving.contains(owner) {
            None::<Seq<char>>
        } else {
            Some(previous)
        }),
{
}

/// Where a request cannot be forwarded, or forwarding fails, the replica falls back to
/// what it has of the metric. Where it has nothing, the answer is an empty list.
pub proof fn law_fallback_to_local_data(
    route: RouteView,
    reply: Option<Reply>,
    step: LocalStep,
    store: StoreView,
    request: MetricRequest,
    now: u64,
)
    requires
        !(route is Local),
        list_from(route, reply) is None,
        answers_from(step, store, request, falls_back(route, reply), now),
    ensures
        has_windows(store, request.namespace@, request.epa_name@, request.metric@) ==> match step {
            LocalStep::Empty(_) => false,
            LocalStep::Cached(value) => store.cached(request.key(), now) == Some(value),
            LocalStep::Aggregate { windows, config } => windows_listed(
                windows@,
                store.windows,
                request.namespace@,
                request.epa_name@,
                request.metric@,
            ) && config == store.config(request.key()),
        },
        !has_windows(store, request.namespace@, request.epa_name@, request.metric@) ==> (
        step matches LocalStep::Empty(list) && list.lists(seq![])),
{
}

// ---------------------------------------------------------------------------
// Aggregation
// ---------------------------------------------------------------------------

/// Samples of scrapes that failed do not count: a pod's value is computed as if they
/// were not there.
pub proof fn law_failed_samples_do_not_count(
    samples: Seq<SampleView>,
    aggregation_type: AggregationType,
)
    ensures
        pod_plan(samples, aggregation_type) == pod_plan(
            samples.filter(succeeded()),
            aggregation_type,
        ),
{
    let good = samples.filter(succeeded());
    lemma_filter_twice(samples);
    assert(good.filter(succeeded()) == good);
}

proof fn lemma_filter_twice(samples: Seq<SampleView>)
    ensures
        samples.filter(succeeded()).filter(succeeded()) == samples.filter(succeeded()),
    decreases samples.len(),
{
    reveal_with_fuel(Seq::filter, 2);
    if samples.len() > 0 {
        lemma_filter_twice(samples.drop_last());
        let before = samples.drop_last().filter(succeeded());
        if samples.last().success {
            assert(before.push(samples.last()).drop_last() =~= before);
        }
    }
}

/// The aggregation type has no effect on counters: of those the rate is taken.
pub proof fn law_counters_are_rates(
    samples: Seq<SampleView>,
    a: AggregationType,
    b: AggregationType,
)
    requires
        samples.filter(succeeded()).len() > 0,
        samples.filter(succeeded())[0].metric_type == MetricType::Counter,
    ensures
        pod_plan(samples, a) == pod_plan(samples, b),
{
}

/// No more pods contribute to a metric than have windows, and a pod without samples in
/// the evaluation period does not.
pub proof fn law_contributing_pods(
    windows: Seq<(String, MetricWindow)>,
    aggregation_type: AggregationType,
    evaluation_period: u128,
    now: u64,
    n: int,
)
    requires
        0 <= n <= windows.len(),
    ensures
        metric_plan(windows, aggregation_type, evaluation_period, now, n).len() <= n,
        (forall|i: int|
            0 <= i < n ==> (#[trigger] windows[i]).1@.recent(evaluation_period, now).len() == 0)
            ==> metric_plan(windows, aggregation_type, evaluation_period, now, n).len() == 0,
    decreases n,
{
    reveal_with_fuel(Seq::filter, 2);
    if n > 0 {
        law_contributing_pods(windows, aggregation_type, evaluation_period, now, n - 1);
        assert(windows[n - 1].1@.recent(evaluation_period, now).len() == 0 ==> pod_plan(
            windows[n - 1].1@.recent(evaluation_period, now),
            aggregation_type,
        ) is None);
    }
}

/// The rate of a counter spans all its samples: it is taken from the first to the last,
/// over the time between these two, whatever lies between them.
pub proof fn law_rate_spans_all_samples(samples: &Vec<&LabeledSample>, r: PodPlan)
    requires
        call_ensures(calculate_rate, (samples,), r),
        samples@.len() >= 2,
        samples@.last().scraped_at > samples@[0].scraped_at,
    ensures
        r matches PodPlan::Rate { first, last, elapsed } && {
            &&& first@ == samples@[0].value@
            &&& last@ == samples@.last().value@
            &&& elapsed == samples@.last().scraped_at - samples@[0].scraped_at
        },
{
}

/// Without time between its first and its last sample a counter has no rate, and one
/// sample alone is its own value.
pub proof fn law_rate_needs_time(samples: &Vec<&LabeledSample>, r: PodPlan)
    requires
        call_ensures(calculate_rate, (samples,), r),
    ensures
        samples@.len() == 0 ==> r is Zero,
        samples@.len() == 1 ==> (r matches PodPlan::Capped(v) && v@ == samples@[0].value@),
        samples@.len() >= 2 && samples@.last().scraped_at <= samples@[0].scraped_at ==> r is Zero,
{
}

/// Samples between the first and the last do not change the rate of a counter.
pub proof fn law_rate_ignores_what_lies_between(
    few: &Vec<&LabeledSample>,
    many: &Vec<&LabeledSample>,
    a: PodPlan,
    b: PodPlan,
)
    requires
        call_ensures(calculate_rate, (few,), a),
        call_ensures(calculate_rate, (many,), b),
        few@.len() >= 2,
        many@.len() >= 2,
        few@[0] == many@[0],
        few@.last() == many@.last(),
    ensures
        a@ == b@,
        a is Rate == b is Rate,
{
}

/// The texts of a list of strings are the values of samples, each in its place.
pub open spec fn are_values(texts: Seq<String>, samples: Seq<&LabeledSample>) -> bool {
    texts.len() == samples.len() && forall|i: int|
        0 <= i < texts.len() ==> (#[trigger] texts[i])@ == samples[i].value@
}

proof fn lemma_values(texts: Seq<String>, samples: Seq<&LabeledSample>)
    requires
        views(texts) == values_of(behind(samples)),
    ensures
        are_values(texts, samples),
{
    assert(views(texts).len() == texts.len());
    assert(values_of(behind(samples)).len() == samples.len());
    assert forall|i: int| 0 <= i < texts.len() implies (#[trigger] texts[i])@
        == samples[i].value@ by {
        assert(views(texts)[i] == texts[i]@);
        assert(values_of(behind(samples))[i] == samples[i].value@);
    }
}

/// Of a gauge all samples count, in the way that its aggregation type names: for the
/// mean, the largest, the smallest and the middle value each of them, for the last value
/// the newest.
pub proof fn law_gauge_counts_all_samples(
    samples: &Vec<&LabeledSample>,
    aggregation_type: &AggregationType,
    r: PodPlan,
)
    requires
        call_ensures(aggregate_samples, (samples, aggregation_type), r),
        samples@.len() > 0,
    ensures
        *aggregation_type == AggregationType::Avg ==> (r matches PodPlan::Mean(v) && are_values(
            v@,
            samples@,
        )),
        *aggregation_type == AggregationType::Max ==> (r matches PodPlan::Largest(v) && are_values(
            v@,
            samples@,
        )),
        *aggregation_type == AggregationType::Min ==> (r matches PodPlan::Smallest(v)
            && are_values(v@, samples@)),
        *aggregation_type == AggregationType::Median ==> (r matches PodPlan::Middle(v)
            && are_values(v@, samples@)),
        *aggregation_type == AggregationType::Last ==> (r matches PodPlan::Value(v) && v@
            == samples@.last().value@),
{
    match r {
        PodPlan::Mean(v) => lemma_values(v@, samples@),
        PodPlan::Largest(v) => lemma_values(v@, samples@),
        PodPlan::Smallest(v) => lemma_values(v@, samples@),
        PodPlan::Middle(v) => lemma_values(v@, samples@),
        _ => {},
    }
}

/// Whether a sample counts at `now`: its scrape succeeded, no longer than a period ago.
pub open spec fn counts(sample: LabeledSample, period: u128, now: u64) -> bool {
    sample.success && now - sample.scraped_at <= period
}

proof fn lemma_good_samples(window: &MetricWindow, period: u128, now: u64, n: int)
    requires
        0 <= n <= window.samples@.len(),
    ensures
        window@.samples.take(n).filter(
            |s: SampleView| elapsed(now, s.scraped_at) <= period,
        ).filter(succeeded()) == window@.samples.take(n).filter(
            |s: SampleView| s.success && now - s.scraped_at <= period,
        ),
    decreases n,
{
    let recent = |s: SampleView| elapsed(now, s.scraped_at) <= period;
    let good = |s: SampleView| s.success && now - s.scraped_at <= period;
    let all = window@.samples;
    reveal_with_fuel(Seq::filter, 2);
    if n > 0 {
        lemma_good_samples(window, period, now, n - 1);
        assert(all.take(n).drop_last() =~= all.take(n - 1));
        let before = all.take(n - 1).filter(recent);
        let s = all[n - 1];
        if recent(s) {
            assert(before.push(s).drop_last() =~= before);
        }
    } else {
        assert(all.take(0).filter(recent) =~= seq![]);
    }
}

proof fn lemma_filter_ends(s: Seq<SampleView>, keep: spec_fn(SampleView) -> bool, i: int, j: int)
    requires
        0 <= i <= j < s.len(),
        keep(s[i]),
        keep(s[j]),
        forall|k: int| 0 <= k < i ==> !keep(#[trigger] s[k]),
        forall|k: int| j < k < s.len() ==> !keep(#[trigger] s[k]),
    ensures
        s.filter(keep).len() > 0,
        s.filter(keep)[0] == s[i],
        s.filter(keep).last() == s[j],
        i < j ==> s.filter(keep).len() >= 2,
        (forall|k: int| 0 <= k < s.len() && k != i ==> !keep(#[trigger] s[k])) ==> s.filter(
            keep,
        ).len() == 1,
    decreases s.len(),
{
    reveal_with_fuel(Seq::filter, 2);
    let rest = s.drop_last();
    if j < s.len() - 1 {
        assert forall|k: int| j < k < rest.len() implies !keep(#[trigger] rest[k]) by {
            assert(rest[k] == s[k]);
        }
        assert forall|k: int| 0 <= k < i implies !keep(#[trigger] rest[k]) by {
            assert(rest[k] == s[k]);
        }
        assert(!keep(s[s.len() - 1]));
        assert(rest[i] == s[i] && rest[j] == s[j]);
        lemma_filter_ends(rest, keep, i, j);
        if forall|k: int| 0 <= k < s.len() && k != i ==> !keep(#[trigger] s[k]) {
            assert forall|k: int| 0 <= k < rest.len() && k != i implies !keep(
                #[trigger] rest[k],
            ) by {
                assert(rest[k] == s[k]);
            }
        }
    } else if i < j {
        let last = lemma_last_kept(rest, keep, i);
        assert forall|k: int| 0 <= k < i implies !keep(#[trigger] rest[k]) by {
            assert(rest[k] == s[k]);
        }
        lemma_filter_ends(rest, keep, i, last);
        assert(s.filter(keep) == rest.filter(keep).push(s[j]));
        assert(keep(s[j]) && j != i);
    } else {
        assert forall|k: int| 0 <= k < rest.len() implies !keep(#[trigger] rest[k]) by {
            assert(rest[k] == s[k]);
        }
        lemma_filter_none(rest, keep);
        assert(s.filter(keep) == rest.filter(keep).push(s[j]));
    }
}

proof fn lemma_last_kept(s: Seq<SampleView>, keep: spec_fn(SampleView) -> bool, i: int) -> (j: int)
    requires
        0 <= i < s.len(),
        keep(s[i]),
    ensures
        i <= j < s.len(),
        keep(s[j]),
        forall|k: int| j < k < s.len() ==> !keep(#[trigger] s[k]),
    decreases s.len(),
{
    if keep(s[s.len() - 1]) {
        s.len() - 1
    } else {
        let rest = s.drop_last();
        let j = lemma_last_kept(rest, keep, i);
        assert forall|k: int| j < k < s.len() implies !keep(#[trigger] s[k]) by {
            if k < rest.len() {
                assert(rest[k] == s[k]);
            }
        }
        j
    }
}

proof fn lemma_filter_none(s: Seq<SampleView>, keep: spec_fn(SampleView) -> bool)
    requires
        forall|k: int| 0 <= k < s.len() ==> !keep(#[trigger] s[k]),
    ensures
        s.filter(keep).len() == 0,
    decreases s.len(),
{
    reveal_with_fuel(Seq::filter, 2);
    if s.len() > 0 {
        let rest = s.drop_last();
        assert forall|k: int| 0 <= k < rest.len() implies !keep(#[trigger] rest[k]) by {
            assert(rest[k] == s[k]);
        }
        assert(!keep(s[s.len() - 1]));
        lemma_filter_none(rest, keep);
    }
}

proof fn lemma_pod_samples(window: &MetricWindow, period: u128, now: u64, i: int, j: int)
    requires
        0 <= i <= j < window.samples@.len(),
        counts(window.samples@[i], period, now),
        counts(window.samples@[j], period, now),
        forall|k: int| 0 <= k < i ==> !counts(#[trigger] window.samples@[k], period, now),
        forall|k: int|
            j < k < window.samples@.len() ==> !counts(#[trigger] window.samples@[k], period, now),
    ensures
        ({
            let good = window@.recent(period, now).filter(succeeded());
            &&& good.len() > 0
            &&& good[0] == window.samples@[i]@
            &&& good.last() == window.samples@[j]@
            &&& i < j ==> good.len() >= 2
            &&& i == j ==> good.len() == 1
        }),
{
    let all = window@.samples;
    let keep = |s: SampleView| s.success && now - s.scraped_at <= period;
    lemma_good_samples(window, period, now, all.len() as int);
    assert(all.take(all.len() as int) =~= all);
    assert forall|k: int| 0 <= k < all.len() implies keep(#[trigger] all[k]) == counts(
        window.samples@[k],
        period,
        now,
    ) by {
        assert(all[k] == window.samples@[k]@);
    }
    lemma_filter_ends(all, keep, i, j);
}

/// The value of a counter of a pod is its rate over the evaluation period: from the
/// oldest sample of a successful scrape that is no older than the period to the newest,
/// over the time between them. Samples before, after and between these two make no
/// difference, and neither does the aggregation type.
pub proof fn law_pod_rate_over_the_period(
    window: &MetricWindow,
    aggregation_type: &AggregationType,
    period: u128,
    now: u64,
    r: Option<PodPlan>,
    i: int,
    j: int,
)
    requires
        call_ensures(plan_pod, (window, aggregation_type, period, now), r),
        0 <= i < j < window.samples@.len(),
        counts(window.samples@[i], period, now),
        counts(window.samples@[j], period, now),
        forall|k: int| 0 <= k < i ==> !counts(#[trigger] window.samples@[k], period, now),
        forall|k: int|
            j < k < window.samples@.len() ==> !counts(#[trigger] window.samples@[k], period, now),
        window.samples@[i].metric_type == MetricType::Counter,
        window.samples@[i].scraped_at < window.samples@[j].scraped_at,
    ensures
        r matches Some(PodPlan::Rate { first, last, elapsed }) && {
            &&& first@ == window.samples@[i].value@
            &&& last@ == window.samples@[j].value@
            &&& elapsed == window.samples@[j].scraped_at - window.samples@[i].scraped_at
        },
{
    lemma_pod_samples(window, period, now, i, j);
}

/// A counter of which one sample counts has that sample's value; a gauge that is
/// aggregated by its last value has that of the newest sample that counts. A pod has a
/// value exactly where some sample counts.
pub proof fn law_pod_value(
    window: &MetricWindow,
    aggregation_type: &AggregationType,
    period: u128,
    now: u64,
    r: Option<PodPlan>,
    i: int,
    j: int,
)
    requires
        call_ensures(plan_pod, (window, aggregation_type, period, now), r),
        0 <= i <= j < window.samples@.len(),
        counts(window.samples@[i], period, now),
        counts(window.samples@[j], period, now),
        forall|k: int| 0 <= k < i ==> !counts(#[trigger] window.samples@[k], period, now),
        forall|k: int|
            j < k < window.samples@.len() ==> !counts(#[trigger] window.samples@[k], period, now),
    ensures
        r is Some,
        window.samples@[i].metric_type == MetricType::Counter && i == j ==> (r matches Some(
            PodPlan::Capped(v),
        ) && v@ == window.samples@[i].value@),
        window.samples@[i].metric_type == MetricType::Gauge ==> match *aggregation_type {
            AggregationType::Avg => r matches Some(PodPlan::Mean(_)),
            AggregationType::Max => r matches Some(PodPlan::Largest(_)),
            AggregationType::Min => r matches Some(PodPlan::Smallest(_)),
            AggregationType::Median => r matches Some(PodPlan::Middle(_)),
            AggregationType::Last => r matches Some(PodPlan::Value(v)) && v@
                == window.samples@[j].value@,
        },
{
    lemma_pod_samples(window, period, now, i, j);
}

/// A pod of which no sample counts has no value.
pub proof fn law_pod_without_samples(
    window: &MetricWindow,
    aggregation_type: &AggregationType,
    period: u128,
    now: u64,
    r: Option<PodPlan>,
)
    requires
        call_ensures(plan_pod, (window, aggregation_type, period, now), r),
        forall|k: int|
            0 <= k < window.samples@.len() ==> !counts(#[trigger] window.samples@[k], period, now),
    ensures
        r is None,
{
    let all = window@.samples;
    let keep = |s: SampleView| s.success && now - s.scraped_at <= period;
    lemma_good_samples(window, period, now, all.len() as int);
    assert(all.take(all.len() as int) =~= all);
    assert forall|k: int| 0 <= k < all.len() implies !keep(#[trigger] all[k]) by {
        assert(all[k] == window.samples@[k]@);
        assert(!counts(window.samples@[k], period, now));
    }
    lemma_filter_none(all, keep);
}

/// Each sample that counts is among those over which a gauge is aggregated: one more of
/// them, scraped after the others, is one more value at the end, and one that does not
/// count changes nothing.
pub proof fn law_gauge_takes_each_sample(
    before: &MetricWindow,
    after: &MetricWindow,
    aggregation_type: &AggregationType,
    period: u128,
    now: u64,
    sample: LabeledSample,
    a: Option<PodPlan>,
    b: Option<PodPlan>,
    first: int,
)
    requires
        call_ensures(plan_pod, (before, aggregation_type, period, now), a),
        call_ensures(plan_pod, (after, aggregation_type, period, now), b),
        after.samples@ == before.samples@.push(sample),
        0 <= first < before.samples@.len(),
        counts(before.samples@[first], period, now),
        forall|k: int| 0 <= k < first ==> !counts(#[trigger] before.samples@[k], period, now),
        before.samples@[first].metric_type == MetricType::Gauge,
    ensures
        match (a, b) {
            (Some(PodPlan::Mean(x)), Some(PodPlan::Mean(y))) => grew(x@, y@, sample, period, now),
            (Some(PodPlan::Largest(x)), Some(PodPlan::Largest(y))) => grew(
                x@,
                y@,
                sample,
                period,
                now,
            ),
            (Some(PodPlan::Smallest(x)), Some(PodPlan::Smallest(y))) => grew(
                x@,
                y@,
                sample,
                period,
                now,
            ),
            (Some(PodPlan::Middle(x)), Some(PodPlan::Middle(y))) => grew(
                x@,
                y@,
                sample,
                period,
                now,
            ),
            (Some(PodPlan::Value(x)), Some(PodPlan::Value(y))) => y@ == (if counts(
                sample,
                period,
                now,
            ) {
                sample.value@
            } else {
                x@
            }),
            _ => false,
        },
{
    let old_all = before@.samples;
    let all = after@.samples;
    let keep = |s: SampleView| s.success && now - s.scraped_at <= period;
    lemma_good_samples(before, period, now, old_all.len() as int);
    lemma_good_samples(after, period, now, all.len() as int);
    assert(old_all.take(old_all.len() as int) =~= old_all);
    assert(all.take(all.len() as int) =~= all);
    assert(all =~= old_all.push(sample@));
    assert(all.drop_last() =~= old_all);
    reveal_with_fuel(Seq::filter, 2);
    assert forall|k: int| 0 <= k < old_all.len() implies keep(#[trigger] old_all[k]) == counts(
        before.samples@[k],
        period,
        now,
    ) by {
        assert(old_all[k] == before.samples@[k]@);
    }
    let last = lemma_last_kept(old_all, keep, first);
    lemma_filter_ends(old_all, keep, first, last);
    let good = old_all.filter(keep);
    let more = all.filter(keep);
    assert(values_of(good.push(sample@)) =~= values_of(good).push(sample.value@));
    assert(more[0] == good[0]);
    match (a, b) {
        (Some(PodPlan::Mean(x)), Some(PodPlan::Mean(y))) => lemma_grew(
            x@,
            y@,
            sample,
            period,
            now,
        ),
        (Some(PodPlan::Largest(x)), Some(PodPlan::Largest(y))) => lemma_grew(
            x@,
            y@,
            sample,
            period,
            now,
        ),
        (Some(PodPlan::Smallest(x)), Some(PodPlan::Smallest(y))) => lemma_grew(
            x@,
            y@,
            sample,
            period,
            now,
        ),
        (Some(PodPlan::Middle(x)), Some(PodPlan::Middle(y))) => lemma_grew(
            x@,
            y@,
            sample,
            period,
            now,
        ),
        _ => {},
    }
}

/// Whether the texts `y` are the texts `x` and, where a sample counts, its value.
pub open spec fn grew(
    x: Seq<String>,
    y: Seq<String>,
    sample: LabeledSample,
    period: u128,
    now: u64,
) -> bool {
    &&& y.len() == x.len() + (if counts(sample, period, now) {
        1int
    } else {
        0int
    })
    &&& forall|i: int| 0 <= i < x.len() ==> (#[trigger] y[i])@ == x[i]@
    &&& counts(sample, period, now) ==> y.last()@ == sample.value@
}

proof fn lemma_grew(
    x: Seq<String>,
    y: Seq<String>,
    sample: LabeledSample,
    period: u128,
    now: u64,
)
    requires
        views(y) == (if counts(sample, period, now) {
            views(x).push(sample.value@)
        } else {
            views(x)
        }),
    ensures
        grew(x, y, sample, period, now),
{
    assert(views(x).len() == x.len());
    assert(views(y).len() == y.len());
    assert forall|i: int| 0 <= i < x.len() implies (#[trigger] y[i])@ == x[i]@ by {
        assert(views(y)[i] == y[i]@);
        assert(views(x)[i] == x[i]@);
    }
    if counts(sample, period, now) {
        assert(views(y)[x.len() as int] == y[x.len() as int]@);
    }
}

/// A metric is summed over its pods: one more pod adds its own value, where it has one,
/// and leaves those of the others as they are. Without pods there is no value.
pub proof fn law_metric_is_summed_over_pods(
    windows: &Vec<(String, MetricWindow)>,
    more: &Vec<(String, MetricWindow)>,
    aggregation_type: &AggregationType,
    period: u128,
    now: u64,
    a: Vec<PodPlan>,
    b: Vec<PodPlan>,
    pod: Option<PodPlan>,
)
    requires
        more@.len() > 0,
        windows@ == more@.drop_last(),
        call_ensures(aggregate_metric, (windows, aggregation_type, period, now), a),
        call_ensures(aggregate_metric, (more, aggregation_type, period, now), b),
        call_ensures(plan_pod, (&more@.last().1, aggregation_type, period, now), pod),
    ensures
        windows@.len() == 0 ==> a@.len() == 0,
        b@.len() == a@.len() + (if pod is Some {
            1int
        } else {
            0int
        }),
        forall|i: int| 0 <= i < a@.len() ==> (#[trigger] b@[i])@ == a@[i]@,
        pod matches Some(plan) ==> b@.last()@ == plan@,
{
    let n = windows@.len() as int;
    lemma_same_plans(windows@, more@, *aggregation_type, period, now, n);
    assert(plan_views(a@).len() == a@.len());
    assert(plan_views(b@).len() == b@.len());
    assert forall|i: int| 0 <= i < a@.len() implies (#[trigger] b@[i])@ == a@[i]@ by {
        assert(plan_views(b@)[i] == b@[i]@);
        assert(plan_views(a@)[i] == a@[i]@);
    }
    if pod is Some {
        assert(plan_views(b@)[a@.len() as int] == b@[a@.len() as int]@);
    }
}

proof fn lemma_same_plans(
    windows: Seq<(String, MetricWindow)>,
    more: Seq<(String, MetricWindow)>,
    aggregation_type: AggregationType,
    period: u128,
    now: u64,
    n: int,
)
    requires
        0 <= n <= windows.len(),
        more.len() > 0,
        windows == more.drop_last(),
    ensures
        metric_plan(windows, aggregation_type, period, now, n) == metric_plan(
            more,
            aggregation_type,
            period,
            now,
            n,
        ),
    decreases n,
{
    if n > 0 {
        lemma_same_plans(windows, more, aggregation_type, period, now, n - 1);
        assert(windows[n - 1] == more[n - 1]);
    }
}

/// The middle of values in order has as many values before it as behind it.
pub proof fn law_middle(n: usize, r: (usize, usize))
    requires
        n > 0,
        call_ensures(middle_places, (n,), r),
    ensures
        n % 2 == 1 ==> r.0 == n / 2 && r.1 == n / 2,
        n % 2 == 0 ==> r.0 == n / 2 - 1 && r.1 == n / 2,
{
}

// ---------------------------------------------------------------------------
// Requests
// ---------------------------------------------------------------------------

/// A metric is asked for under the name of its resource, its namespace and its own name,
/// with hyphens between them, and a request under this name is for that metric.
pub proof fn law_names_are_built_and_read(
    epa_name: &str,
    namespace: &str,
    metric: &str,
    built: String,
    asked: &str,
    r: Result<(String, String, String), ApiError>,
)
    requires
        call_ensures(build_external_metric_name, (epa_name, namespace, metric), built),
        asked@ == built@,
        call_ensures(parse_external_metric_name, (namespace, asked), r),
        epa_name@.len() > 0,
        metric@.len() > 0,
        !metric@.contains('-'),
    ensures
        built@ == epa_name@ + "-"@ + namespace@ + "-"@ + metric@,
        r is Ok,
        r->Ok_0.0@ == epa_name@,
        r->Ok_0.1@ == namespace@,
        r->Ok_0.2@ == metric@,
{
    law_metric_name_round_trip(epa_name@, namespace@, metric@);
}

/// A name is understood only where it is that of a resource and a metric in the
/// namespace; any other is a bad request.
pub proof fn law_names_that_are_not_understood(
    namespace: &str,
    name: &str,
    r: Result<(String, String, String), ApiError>,
)
    requires
        call_ensures(parse_external_metric_name, (namespace, name), r),
    ensures
        r matches Ok(parts) ==> name@ == parts.0@ + "-"@ + namespace@ + "-"@ + parts.2@
            && parts.0@.len() > 0 && parts.2@.len() > 0 && !parts.2@.contains('-') && parts.1@
            == namespace@,
        r is Err ==> (r->Err_0 matches ApiError::BadRequest(m) && m@
            == "Invalid external metric name format: "@ + name@),
{
    if r is Ok {
        law_metric_name_is_unique(namespace@, name@);
    }
}

/// A replica that serves answers itself. Another one forwards to the owner, where that is
/// another replica; where it is the owner itself, it forwards to the one before it, where
/// that is another replica. Else there is nobody to forward to.
pub proof fn law_routes(
    serves: bool,
    owner: Option<String>,
    previous: Option<String>,
    my_id: &str,
    r: Route,
)
    requires
        call_ensures(choose_route, (serves, owner, previous, my_id), r),
    ensures
        serves <==> r is Local,
        !serves && owner is None <==> r is NoReplicas,
        !serves && owner is Some && owner->0@ != my_id@ ==> (r matches Route::Forward {
            target,
            draining,
        } && target@ == owner->0@ && !draining),
        !serves && owner is Some && owner->0@ == my_id@ && previous is Some && previous->0@
            != my_id@ ==> (r matches Route::Forward { target, draining } && target@
            == previous->0@ && draining),
        !serves && owner is Some && owner->0@ == my_id@ && (previous is None || previous->0@
            == my_id@) <==> r is NoPredecessor,
{
}

/// A request is forwarded to the address of the replica, for the same metric.
pub proof fn law_forwarded_request(address: &str, request: &MetricRequest, r: String)
    requires
        call_ensures(forward_url, (address, request), r),
    ensures
        r@ == "https://"@ + address@ + "/apis/external.metrics.k8s.io/v1beta1/namespaces/"@
            + request.namespace@ + "/"@ + request.external_name@,
{
}

/// What another replica answered counts where its status says success and its answer could
/// be read; the request then needs no answer from here. Otherwise this replica answers
/// from what it has, unless it was to answer in the first place.
pub proof fn law_answers_of_other_replicas(
    route: &Route,
    reply: Option<Reply>,
    r: (Option<ExternalMetricValueList>, bool),
)
    requires
        call_ensures(after_route, (route, reply), r),
    ensures
        *route is Local ==> r.0 is None && !r.1,
        !(*route is Local) ==> r.1 == r.0 is None,
        *route is NoReplicas || *route is NoPredecessor ==> r.0 is None,
        *route is Forward ==> match reply {
            Some(Reply::Answered { status, list }) => if 200 <= status <= 299 {
                r.0 == list
            } else {
                r.0 is None
            },
            _ => r.0 is None,
        },
{
}

/// A request is counted by what became of it on its way.
pub proof fn law_labels_of_requests(
    route: &Route,
    reply: &Option<Reply>,
    r: Option<&'static str>,
)
    requires
        call_ensures(route_label, (route, reply), r),
    ensures
        *route is Local || *route is NoPredecessor ==> r is None,
        *route is NoReplicas ==> r is Some && r->0@ == "no_replicas"@,
        *route matches Route::Forward { draining, .. } ==> match *reply {
            None => r is None,
            Some(Reply::Unreachable) => r is Some && r->0@ == "owner_down"@,
            Some(Reply::Failed) => r is Some && r->0@ == "forward_failed"@,
            Some(Reply::Answered { status, list }) => r is Some && r->0@ == (if !(200 <= status
                <= 299) || list is None {
                "forward_failed"@
            } else if draining {
                "forwarded_to_draining"@
            } else {
                "forwarded"@
            }),
        },
{
}

/// A request is answered with the value that is held for it, else with what its windows
/// come to, as the metric is configured; where there are none, with an empty list. After
/// forwarding failed, a value without windows does not count.
pub proof fn law_answers_from_the_store(
    store: &MetricsStore,
    request: &MetricRequest,
    forward_failed: bool,
    now: u64,
    cached: Option<u64>,
    windows: Vec<(String, MetricWindow)>,
    config: MetricConfig,
    namespace: &str,
    epa_name: &str,
    metric: &str,
    r: LocalStep,
)
    requires
        call_ensures(local_step, (store, request, forward_failed, now), r),
        namespace@ == request.namespace@,
        epa_name@ == request.epa_name@,
        metric@ == request.metric@,
        call_ensures(MetricsStore::get_cached, (store, namespace, epa_name, metric, now), cached),
        call_ensures(MetricsStore::get_windows, (store, namespace, epa_name, metric), windows),
        call_ensures(MetricsStore::get_metric_config, (store, namespace, epa_name, metric), config),
    ensures
        windows@.len() == 0 && (forward_failed || cached is None) <==> r is Empty,
        cached is Some && (windows@.len() > 0 || !forward_failed) <==> r is Cached,
        r matches LocalStep::Cached(value) ==> Some(value) == cached,
        r matches LocalStep::Empty(list) ==> list.items@.len() == 0,
        r matches LocalStep::Aggregate { windows: w, config: c } ==> {
            &&& c == config
            &&& w@.len() > 0
            &&& forall|i: int|
                0 <= i < w@.len() ==> exists|j: int|
                    0 <= j < windows@.len() && (#[trigger] windows@[j]).0@ == (
                    #[trigger] w@[i]).0@ && windows@[j].1@ == w@[i].1@
            &&& forall|j: int|
                0 <= j < windows@.len() ==> exists|i: int|
                    0 <= i < w@.len() && (#[trigger] w@[i]).0@ == (#[trigger] windows@[j]).0@
        },
{
    let held = has_windows(store@, request.namespace@, request.epa_name@, request.metric@);
    if windows@.len() > 0 {
        assert(store@.windows.contains_key(
            window_key(namespace@, epa_name@, metric@, windows@[0].0@),
        ));
    }
    if held {
        let pod = choose|pod: Seq<char>| #[trigger]
            store@.windows.contains_key(
                window_key(request.namespace@, request.epa_name@, request.metric@, pod),
            );
        assert(store@.windows.contains_key(window_key(namespace@, epa_name@, metric@, pod)));
    }
    assert(held == (windows@.len() > 0));
    if let LocalStep::Aggregate { windows: w, config: c } = r {
        let pod = choose|pod: Seq<char>| #[trigger]
            store@.windows.contains_key(
                window_key(request.namespace@, request.epa_name@, request.metric@, pod),
            );
        assert(w@.len() > 0);
        assert forall|i: int| 0 <= i < w@.len() implies exists|j: int|
            0 <= j < windows@.len() && (#[trigger] windows@[j]).0@ == (#[trigger] w@[i]).0@
                && windows@[j].1@ == w@[i].1@ by {
            assert(store@.windows.contains_key(
                window_key(namespace@, epa_name@, metric@, w@[i].0@),
            ));
        }
        assert forall|j: int| 0 <= j < windows@.len() implies exists|i: int|
            0 <= i < w@.len() && (#[trigger] w@[i]).0@ == (#[trigger] windows@[j]).0@ by {
            assert(store@.windows.contains_key(
                window_key(request.namespace@, request.epa_name@, request.metric@, windows@[j].0@),
            ));
        }
    }
}

/// A value that was aggregated answers the same request for ten seconds, and others not.
pub proof fn law_value_is_held_for_ten_seconds(
    store: &mut MetricsStore,
    request: &MetricRequest,
    value: u64,
    now: u64,
    after: &MetricsStore,
    namespace: &str,
    epa_name: &str,
    metric: &str,
    later: u64,
    r: Option<u64>,
    other: Seq<Seq<char>>,
)
    requires
        call_ensures(hold_value, (store, request, value, now), ()),
        after@ == final(store)@,
        namespace@ == request.namespace@,
        epa_name@ == request.epa_name@,
        metric@ == request.metric@,
        call_ensures(MetricsStore::get_cached, (after, namespace, epa_name, metric, later), r),
        now <= later,
        other != seq![request.namespace@, request.epa_name@, request.metric@],
    ensures
        r == (if later - now < 10_000_000_000 {
            Some(value)
        } else {
            None
        }),
        final(store)@.cached(other, later) == old(store)@.cached(other, later),
        final(store)@.windows == old(store)@.windows,
        final(store)@.configs == old(store)@.configs,
{
}

/// The answer holds the one value, written in decimal, for the metric under the name that
/// was asked for, at the time that is given.
pub proof fn law_answer_with_a_value(
    request: &MetricRequest,
    value: i64,
    timestamp: i64,
    text: String,
    r: ExternalMetricValueList,
)
    requires
        call_ensures(respond, (request, value, timestamp), r),
        call_ensures(signed_text, (value,), text),
    ensures
        r.kind@ == "ExternalMetricValueList"@,
        r.api_version@ == "external.metrics.k8s.io/v1beta1"@,
        r.items@.len() == 1,
        r.items@[0].metric_name@ == request.external_name@,
        r.items@[0].value@ == text@,
        r.items@[0].timestamp == timestamp,
{
}

/// A request that is understood asks for the metric that its name names; one that is not
/// is a bad request.
pub proof fn law_requests(
    ownership: &EpaOwnership,
    membership: &MembershipManager,
    namespace: &str,
    name: &str,
    now: u64,
    read: Result<(String, String, String), ApiError>,
    r: Result<(MetricRequest, Route), ApiError>,
)
    requires
        call_ensures(get_external_metric, (ownership, membership, namespace, name, now), r),
        call_ensures(parse_external_metric_name, (namespace, name), read),
    ensures
        r is Ok == read is Ok,
        r is Err ==> r->Err_0 is BadRequest,
        r is Ok ==> {
            &&& r->Ok_0.0.epa_name@ == read->Ok_0.0@
            &&& r->Ok_0.0.namespace@ == namespace@
            &&& r->Ok_0.0.metric@ == read->Ok_0.2@
            &&& r->Ok_0.0.external_name@ == name@
            &&& r->Ok_0.1 matches Route::Forward { target, .. } ==> target@ != membership.id()
        },
{
}

/// A request of a replica that has the resource neither now nor before goes to the owner,
/// where there is one.
pub proof fn law_requests_go_to_the_owner(
    ownership: &EpaOwnership,
    membership: &MembershipManager,
    namespace: &str,
    name: &str,
    now: u64,
    found: (MetricRequest, Route),
)
    requires
        call_ensures(
            get_external_metric,
            (ownership, membership, namespace, name, now),
            Ok::<(MetricRequest, Route), ApiError>(found),
        ),
        !ownership@.owned.contains_key(namespace@ + "/"@ + found.0.epa_name@),
        !ownership@.lost.contains_key(namespace@ + "/"@ + found.0.epa_name@),
    ensures
        !(found.1 is Local),
        found.1 is NoReplicas ==> forall|id: Seq<char>| !membership.active_set().contains(id),
        found.1 matches Route::Forward { target, draining } ==> !draining
            ==> membership.active_set().contains(target@),
{
}

/// The status codes of errors.
pub proof fn law_status_codes(error: &ApiError, r: u16)
    requires
        call_ensures(ApiError::status_code, (error,), r),
    ensures
        r == 404 <==> *error is NotFound,
        r == 400 <==> *error is BadRequest,
        r == 500 <==> *error is InternalError,
        r == 422 <==> *error is MetricUnavailable,
{
}

/// A forwarded request is answered by the list of an answer whose status says success; it
/// is counted by whether it was, and as one to a replica that leaves where it was.
pub proof fn law_forwarded_answers(
    reply: Reply,
    draining: bool,
    r: (Option<ExternalMetricValueList>, &'static str),
)
    requires
        call_ensures(forwarded, (reply, draining), r),
    ensures
        match reply {
            Reply::Answered { status, list } => r.0 == (if 200 <= status <= 299 {
                list
            } else {
                None
            }),
            _ => r.0 is None,
        },
        r.0 is Some ==> r.1@ == (if draining {
            "forwarded_to_draining"@
        } else {
            "forwarded"@
        }),
        reply is Unreachable ==> r.1@ == "owner_down"@,
        r.0 is None && !(reply is Unreachable) ==> r.1@ == "forward_failed"@,
{
}

} // verus!
