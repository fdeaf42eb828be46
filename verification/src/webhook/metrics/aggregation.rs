//! Aggregating a metric across pods: the samples of each pod are made into one value,
//! and the values are added up.
//!
//! The values are floating-point numbers, carried here as they were read. This module
//! says of which samples, and by which operation, each pod's value is computed.

use crate::apis::externalpodautoscaler::AggregationType;
use crate::duration::{elapsed, since};
use crate::store::types::{LabeledSample, MetricType, SampleView};
use crate::store::window::{behind, MetricWindow};
use crate::text::views;
use vstd::prelude::*;

verus! {

/// The highest rate of a counter, per second. It keeps a counter that was reset from
/// giving a value that is not realistic.
pub const MAX_RATE: u64 = 1_000_000_000;

/// How the value of one pod is computed.
#[derive(Debug)]
pub enum PodPlan {
    /// The value as it is
    Value(String),
    /// The value, at most the highest rate
    Capped(String),
    /// Zero
    Zero,
    /// The rate from the first to the last value over a time in nanoseconds, at most
    /// the highest rate. Where the last value is lower than the first, the counter was
    /// reset and started from zero.
    Rate { first: String, last: String, elapsed: u64 },
    /// The mean of the values
    Mean(Vec<String>),
    /// The largest of the values
    Largest(Vec<String>),
    /// The smallest of the values
    Smallest(Vec<String>),
    /// The middle one of the values in order, or the mean of the middle two
    Middle(Vec<String>),
}

/// How the value of one pod is computed.
pub enum PlanView {
    Value(Seq<char>),
    Capped(Seq<char>),
    Zero,
    Rate { first: Seq<char>, last: Seq<char>, elapsed: nat },
    Mean(Seq<Seq<char>>),
    Largest(Seq<Seq<char>>),
    Smallest(Seq<Seq<char>>),
    Middle(Seq<Seq<char>>),
}

impl View for PodPlan {
    type V = PlanView;

    open spec fn view(&self) -> PlanView {
        match *self {
            PodPlan::Value(v) => PlanView::Value(v@),
            PodPlan::Capped(v) => PlanView::Capped(v@),
            PodPlan::Zero => PlanView::Zero,
            PodPlan::Rate { first, last, elapsed } => PlanView::Rate {
                first: first@,
                last: last@,
                elapsed: elapsed as nat,
            },
            PodPlan::Mean(values) => PlanView::Mean(views(values@)),
            PodPlan::Largest(values) => PlanView::Largest(views(values@)),
            PodPlan::Smallest(values) => PlanView::Smallest(views(values@)),
            PodPlan::Middle(values) => PlanView::Middle(views(values@)),
        }
    }
}

/// What a list of plans stands for.
pub open spec fn plan_views(plans: Seq<PodPlan>) -> Seq<PlanView> {
    plans.map_values(|p: PodPlan| p@)
}

/// Holds of the samples of scrapes that succeeded.
pub open spec fn succeeded() -> spec_fn(SampleView) -> bool {
    |s: SampleView| s.success
}

/// The values of samples.
pub open spec fn values_of(samples: Seq<SampleView>) -> Seq<Seq<char>> {
    samples.map_values(|s: SampleView| s.value)
}

/// How the rate of a counter is computed from its samples, in the order in which they
/// were scraped: with one sample it is the value itself, and with no time between the
/// first and the last it is zero.
pub open spec fn rate_plan(samples: Seq<SampleView>) -> PlanView {
    if samples.len() == 0 {
        PlanView::Zero
    } else if samples.len() < 2 {
        PlanView::Capped(samples[0].value)
    } else if elapsed(samples.last().scraped_at, samples[0].scraped_at) == 0 {
        PlanView::Zero
    } else {
        PlanView::Rate {
            first: samples[0].value,
            last: samples.last().value,
            elapsed: elapsed(samples.last().scraped_at, samples[0].scraped_at),
        }
    }
}

/// How the samples of a gauge are aggregated.
pub open spec fn gauge_plan(samples: Seq<SampleView>, aggregation_type: AggregationType) -> PlanView {
    if samples.len() == 0 {
        PlanView::Zero
    } else {
        match aggregation_type {
            AggregationType::Avg => PlanView::Mean(values_of(samples)),
            AggregationType::Max => PlanView::Largest(values_of(samples)),
            AggregationType::Min => PlanView::Smallest(values_of(samples)),
            AggregationType::Median => PlanView::Middle(values_of(samples)),
            AggregationType::Last => PlanView::Value(samples.last().value),
        }
    }
}

/// How the value of a pod is computed from its samples in the evaluation period. Only
/// scrapes that succeeded count; a pod without such a sample has no value. The first
/// sample decides whether the metric is a counter.
pub open spec fn pod_plan(samples: Seq<SampleView>, aggregation_type: AggregationType) -> Option<
    PlanView,
> {
    let good = samples.filter(succeeded());
    if good.len() == 0 {
        None
    } else {
        match good[0].metric_type {
            MetricType::Counter => Some(rate_plan(good)),
            MetricType::Gauge => Some(gauge_plan(good, aggregation_type)),
        }
    }
}

/// How the values of the first `n` pods are computed, of those that have one.
pub open spec fn metric_plan(
    windows: Seq<(String, MetricWindow)>,
    aggregation_type: AggregationType,
    evaluation_period: u128,
    now: u64,
    n: int,
) -> Seq<PlanView>
    decreases n,
{
    if n <= 0 {
        seq![]
    } else {
        let before = metric_plan(windows, aggregation_type, evaluation_period, now, n - 1);
        match pod_plan(windows[n - 1].1@.recent(evaluation_period, now), aggregation_type) {
            Some(plan) => before.push(plan),
            None => before,
        }
    }
}

fn copy_values(samples: &Vec<&LabeledSample>) -> (r: Vec<String>)
    ensures
        views(r@) == values_of(behind(samples@)),
{
    let mut r: Vec<String> = Vec::new();
    let mut i: usize = 0;
    while i < samples.len()
        invariant
            i <= samples@.len(),
            views(r@) == values_of(behind(samples@)).take(i as int),
        decreases samples.len() - i,
    {
        let ghost before = r@;
        r.push(samples[i].value.clone());
        proof {
            let all = values_of(behind(samples@));
            assert(views(r@) =~= views(before).push(all[i as int]));
            assert(all.take(i + 1) =~= all.take(i as int).push(all[i as int]));
        }
        i += 1;
    }
    assert(values_of(behind(samples@)).take(i as int) =~= values_of(behind(samples@)));
    r
}

/// How the rate of a counter is computed from its samples.
pub fn calculate_rate(samples: &Vec<&LabeledSample>) -> (r: PodPlan)
    ensures
        r@ == rate_plan(behind(samples@)),
{
    let n: usize = samples.len();
    if n == 0 {
        return PodPlan::Zero;
    }
    if n < 2 {
        return PodPlan::Capped(samples[0].value.clone());
    }
    let first = samples[0];
    let last = samples[n - 1];
    let time: u64 = since(last.scraped_at, first.scraped_at);
    if time == 0 {
        return PodPlan::Zero;
    }
    PodPlan::Rate { first: first.value.clone(), last: last.value.clone(), elapsed: time }
}

/// How the samples of a gauge are aggregated.
pub fn aggregate_samples(samples: &Vec<&LabeledSample>, aggregation_type: &AggregationType) -> (r:
    PodPlan)
    ensures
        r@ == gauge_plan(behind(samples@), *aggregation_type),
{
    let n: usize = samples.len();
    if n == 0 {
        return PodPlan::Zero;
    }
    match aggregation_type {
        AggregationType::Avg => PodPlan::Mean(copy_values(samples)),
        AggregationType::Max => PodPlan::Largest(copy_values(samples)),
        AggregationType::Min => PodPlan::Smallest(copy_values(samples)),
        AggregationType::Median => PodPlan::Middle(copy_values(samples)),
        AggregationType::Last => PodPlan::Value(samples[n - 1].value.clone()),
    }
}

fn only_successful<'a>(samples: Vec<&'a LabeledSample>) -> (r: Vec<&'a LabeledSample>)
    ensures
        behind(r@) == behind(samples@).filter(succeeded()),
{
    let ghost all = behind(samples@);
    let mut r: Vec<&'a LabeledSample> = Vec::new();
    let mut i: usize = 0;
    proof {
        reveal_with_fuel(Seq::filter, 2);
        assert(all.take(0) =~= seq![]);
        assert(all.take(0).filter(succeeded()) =~= seq![]);
        assert(behind(r@) =~= seq![]);
    }
    while i < samples.len()
        invariant
            i <= samples@.len(),
            all == behind(samples@),
            behind(r@) == all.take(i as int).filter(succeeded()),
        decreases samples.len() - i,
    {
        let ghost before = r@;
        let sample = samples[i];
        if sample.success {
            r.push(sample);
        }
        proof {
            reveal_with_fuel(Seq::filter, 2);
            assert(all.take(i + 1).drop_last() =~= all.take(i as int));
            assert(all.take(i + 1).last() == sample@);
            if sample.success {
                assert(behind(r@) =~= behind(before).push(sample@));
            }
        }
        i += 1;
    }
    assert(all.take(i as int) =~= all);
    r
}

/// How the value of one pod is computed, where it has one.
pub fn plan_pod(
    window: &MetricWindow,
    aggregation_type: &AggregationType,
    evaluation_period: u128,
    now: u64,
) -> (r: Option<PodPlan>)
    ensures
        match r {
            Some(plan) => pod_plan(window@.recent(evaluation_period, now), *aggregation_type)
                == Some(plan@),
            None => pod_plan(window@.recent(evaluation_period, now), *aggregation_type) is None,
        },
{
    let samples = only_successful(window.get_samples_in_period(evaluation_period, now));
    if samples.len() == 0 {
        return None;
    }
    match samples[0].metric_type {
        MetricType::Counter => Some(calculate_rate(&samples)),
        MetricType::Gauge => Some(aggregate_samples(&samples, aggregation_type)),
    }
}

/// Aggregate metric across all pods using two-stage aggregation: how the value of each
/// pod is computed that has samples in the evaluation period. The metric is the sum of
/// these values, and as many pods contribute to it.
pub fn aggregate_metric(
    windows: &Vec<(String, MetricWindow)>,
    aggregation_type: &AggregationType,
    evaluation_period: u128,
    now: u64,
) -> (r: Vec<PodPlan>)
    ensures
        plan_views(r@) == metric_plan(
            windows@,
            *aggregation_type,
            evaluation_period,
            now,
            windows@.len() as int,
        ),
{
    let mut r: Vec<PodPlan> = Vec::new();
    let mut i: usize = 0;
    assert(plan_views(r@) =~= seq![]);
    while i < windows.len()
        invariant
            i <= windows@.len(),
            plan_views(r@) == metric_plan(
                windows@,
                *aggregation_type,
                evaluation_period,
                now,
                i as int,
            ),
        decreases windows.len() - i,
    {
        if let Some(plan) = plan_pod(&windows[i].1, aggregation_type, evaluation_period, now) {
            let ghost before = r@;
            let ghost v = plan@;
            r.push(plan);
            assert(plan_views(r@) =~= plan_views(before).push(v));
        }
        i += 1;
    }
    r
}

/// The places of the middle one of `n` values in order, or of the middle two.
pub fn middle_places(n: usize) -> (r: (usize, usize))
    requires
        n > 0,
    ensures
        r.0 <= r.1 < n,
        r.0 + r.1 == n - 1,
        r.1 - r.0 <= 1,
{
    let mid: usize = n / 2;
    if n % 2 == 0 {
        (mid - 1, mid)
    } else {
        (mid, mid)
    }
}

} // verus!
