//! Deciding which resources are scraped, and when.

use crate::apis::externalpodautoscaler::{ExternalPodAutoscaler, MetricSpec, TargetRef};
use crate::duration::{
    duration_of, elapsed, parse_duration, since, whole_seconds, LONGEST, SECOND,
};
use crate::k8s::Pod;
use crate::membership::manager::MembershipManager;
use crate::membership::ownership::{key_of, may_find, EpaOwnership};
use crate::names::{NameMap, NameSet};
use crate::store::ops::{stale_windows, MetricsStore, StoreView};
use crate::store::types::{metric_key, MetricConfig};
use crate::text::{cut, split_once};
use std::sync::Arc;
use vstd::prelude::*;
use vstd::string::StringExecFns;

verus! {

/// How often stale windows are looked for, in nanoseconds.
pub const EVICTION_INTERVAL: u64 = 60_000_000_000;

/// How old the newest sample of a window may become, in nanoseconds.
pub const MAX_WINDOW_AGE: u128 = 120_000_000_000;

// ---------------------------------------------------------------------------
// How metrics are aggregated
// ---------------------------------------------------------------------------

/// How a metric of a resource is aggregated: as the metric says, else as the resource
/// does.
pub open spec fn config_of(
    epa: ExternalPodAutoscaler,
    spec: MetricSpec,
    evaluation_period: u128,
) -> Result<MetricConfig, Seq<char>> {
    let aggregation_type = match spec.aggregation_type {
        Some(t) => t,
        None => epa.spec.scrape.aggregation_type,
    };
    match spec.evaluation_period {
        None => Ok(MetricConfig { aggregation_type, evaluation_period }),
        Some(text) => match duration_of(text@) {
            Ok(period) => Ok(MetricConfig { aggregation_type, evaluation_period: period as u128 }),
            Err(m) => Err(m),
        },
    }
}

/// How a metric of a resource is aggregated.
pub fn metric_config(epa: &ExternalPodAutoscaler, spec: &MetricSpec, evaluation_period: u128) -> (r:
    Result<MetricConfig, String>)
    ensures
        match r {
            Ok(config) => config_of(*epa, *spec, evaluation_period) == Ok::<
                MetricConfig,
                Seq<char>,
            >(config),
            Err(m) => config_of(*epa, *spec, evaluation_period) == Err::<MetricConfig, Seq<char>>(
                m@,
            ),
        },
{
    let aggregation_type = match spec.aggregation_type {
        Some(t) => t,
        None => epa.spec.scrape.aggregation_type,
    };
    let period: u128 = match &spec.evaluation_period {
        Some(text) => match parse_duration(text.as_str()) {
            Ok(period) => period,
            Err(m) => {
                return Err(m);
            },
        },
        None => evaluation_period,
    };
    Ok(MetricConfig::with_period(aggregation_type, period))
}

/// The store once it holds how the first `n` metrics of a resource are aggregated.
/// Metrics of which that cannot be read are passed over.
pub open spec fn configured(
    store: StoreView,
    namespace: Seq<char>,
    name: Seq<char>,
    epa: ExternalPodAutoscaler,
    evaluation_period: u128,
    n: int,
) -> StoreView
    decreases n,
{
    if n <= 0 {
        store
    } else {
        let before = configured(store, namespace, name, epa, evaluation_period, n - 1);
        let spec = epa.spec.metrics@[n - 1];
        match config_of(epa, spec, evaluation_period) {
            Ok(config) => StoreView {
                configs: before.configs.insert(
                    metric_key(namespace, name, spec.metric_name@),
                    config,
                ),
                ..before
            },
            Err(_) => before,
        }
    }
}

// ---------------------------------------------------------------------------
// A round of scrapes
// ---------------------------------------------------------------------------

/// What the scrapes of one resource's pods have in common.
#[derive(Debug)]
pub struct ScrapeRound {
    /// Namespace of the resource
    pub namespace: String,
    /// Name of the resource
    pub name: String,
    /// Evaluation period, in nanoseconds
    pub evaluation_period: u128,
    /// Scrape interval, in nanoseconds
    pub interval: u128,
    /// Maximum number of metric samples to retain
    pub max_samples: usize,
    /// Whether to skip TLS certificate verification
    pub use_insecure_tls: bool,
    /// The workload whose pods are scraped
    pub target: TargetRef,
}

/// A single unit of scrape work targeting one pod for one EPA.
#[derive(Debug)]
pub struct ScrapeJob {
    /// The EPA resource that defines the scrape configuration.
    pub epa: Arc<ExternalPodAutoscaler>,
    /// The pod to scrape metrics from.
    pub pod: Arc<Pod>,
    /// Maximum number of metric samples to retain.
    pub max_samples: usize,
    /// Whether to skip TLS certificate verification.
    pub use_insecure_tls: bool,
}

impl ScrapeRound {
    /// The job of scraping one pod.
    pub fn job(&self, epa: Arc<ExternalPodAutoscaler>, pod: Arc<Pod>) -> (r: ScrapeJob)
        ensures
            r.epa == epa,
            r.pod == pod,
            r.max_samples == self.max_samples,
            r.use_insecure_tls == self.use_insecure_tls,
    {
        ScrapeJob {
            epa,
            pod,
            max_samples: self.max_samples,
            use_insecure_tls: self.use_insecure_tls,
        }
    }

    /// The jobs of scraping the pods of a resource: one for each pod, in their order.
    pub fn jobs(&self, epa: &Arc<ExternalPodAutoscaler>, pods: &Vec<Arc<Pod>>) -> (r: Vec<
        ScrapeJob,
    >)
        ensures
            r@.len() == pods@.len(),
            forall|i: int|
                0 <= i < pods@.len() ==> {
                    &&& (#[trigger] r@[i]).epa == *epa
                    &&& r@[i].pod == pods@[i]
                    &&& r@[i].max_samples == self.max_samples
                    &&& r@[i].use_insecure_tls == self.use_insecure_tls
                },
    {
        let mut r: Vec<ScrapeJob> = Vec::new();
        let mut i: usize = 0;
        while i < pods.len()
            invariant
                i <= pods@.len(),
                r@.len() == i,
                forall|k: int|
                    0 <= k < i ==> {
                        &&& (#[trigger] r@[k]).epa == *epa
                        &&& r@[k].pod == pods@[k]
                        &&& r@[k].max_samples == self.max_samples
                        &&& r@[k].use_insecure_tls == self.use_insecure_tls
                    },
            decreases pods.len() - i,
        {
            r.push(self.job(Arc::clone(epa), Arc::clone(&pods[i])));
            i += 1;
        }
        r
    }

    /// How it is reported that nobody takes jobs any more.
    pub fn channel_closed(&self) -> (r: String)
        ensures
            r@ == "Job channel closed while sending job for EPA "@ + self.namespace@ + "/"@
                + self.name@,
    {
        let mut m = "Job channel closed while sending job for EPA ".to_owned();
        m.append(self.namespace.as_str());
        m.append("/");
        m.append(self.name.as_str());
        m
    }
}

/// The namespace, the name, the evaluation period and the interval of a resource, or
/// the report of why they cannot be read.
pub open spec fn timing_of(key: Seq<char>, epa: ExternalPodAutoscaler) -> Result<
    (Seq<char>, Seq<char>, nat, nat),
    Seq<char>,
> {
    match cut(key, '/') {
        None => Err("Invalid EPA key format: "@ + key),
        Some((namespace, name)) => match duration_of(epa.spec.scrape.evaluation_period@) {
            Err(m) => Err(m),
            Ok(period) => match duration_of(epa.spec.scrape.interval@) {
                Err(m) => Err(m),
                Ok(interval) => Ok((namespace, name, period, interval)),
            },
        },
    }
}

fn timing(key: &str, epa: &ExternalPodAutoscaler) -> (r: Result<
    (String, String, u128, u128),
    String,
>)
    ensures
        match r {
            Ok(t) => timing_of(key@, *epa) == Ok::<(Seq<char>, Seq<char>, nat, nat), Seq<char>>(
                (t.0@, t.1@, t.2 as nat, t.3 as nat),
            ) && t.2 <= LONGEST && t.3 <= LONGEST,
            Err(m) => timing_of(key@, *epa) == Err::<(Seq<char>, Seq<char>, nat, nat), Seq<char>>(
                m@,
            ),
        },
{
    let (namespace, name) = match split_once(key, '/') {
        Some((namespace, name)) => (namespace.to_owned(), name.to_owned()),
        None => {
            let mut m = "Invalid EPA key format: ".to_owned();
            m.append(key);
            return Err(m);
        },
    };
    let period: u128 = match parse_duration(epa.spec.scrape.evaluation_period.as_str()) {
        Ok(period) => period,
        Err(m) => {
            return Err(m);
        },
    };
    let interval: u128 = match parse_duration(epa.spec.scrape.interval.as_str()) {
        Ok(interval) => interval,
        Err(m) => {
            return Err(m);
        },
    };
    Ok((namespace, name, period, interval))
}

/// How many intervals it takes to cover an evaluation period, in whole seconds.
pub open spec fn intervals_in(evaluation_period: nat, interval: nat) -> nat {
    let period = whole_seconds(evaluation_period);
    let step = if whole_seconds(interval) < 1 {
        1
    } else {
        whole_seconds(interval)
    };
    if period % step == 0 {
        period / step
    } else {
        period / step + 1
    }
}

/// How many samples a window retains: those of one evaluation period, at least one,
/// and one more.
pub open spec fn samples_kept(evaluation_period: nat, interval: nat) -> nat {
    let n = intervals_in(evaluation_period, interval);
    (if n < 1 {
        1
    } else {
        n
    }) + 1
}

/// How many samples a window retains, where that can be counted.
pub fn max_samples(evaluation_period: u128, interval: u128) -> (r: Option<usize>)
    ensures
        match r {
            Some(n) => n == samples_kept(evaluation_period as nat, interval as nat),
            None => samples_kept(evaluation_period as nat, interval as nat) > usize::MAX,
        },
{
    let period: u128 = evaluation_period / SECOND;
    let seconds: u128 = interval / SECOND;
    let step: u128 = if seconds < 1 {
        1
    } else {
        seconds
    };
    proof {
        assert(period / step <= period) by (nonlinear_arith)
            requires
                step >= 1,
        ;
    }
    let n: u128 = if period % step == 0 {
        period / step
    } else {
        period / step + 1
    };
    let kept: u128 = if n < 1 {
        2
    } else {
        n + 1
    };
    if kept <= usize::MAX as u128 {
        Some(kept as usize)
    } else {
        None
    }
}

/// Whether certificates go unchecked: only where the resource asks for it.
pub open spec fn insecure(epa: ExternalPodAutoscaler) -> bool {
    epa.spec.scrape.tls matches Some(tls) && tls.insecure_skip_verify
}

/// The workload whose pods are scraped: the one given for that, else the one to scale.
pub open spec fn scrape_target(epa: ExternalPodAutoscaler) -> TargetRef {
    match epa.spec.scrape_target_ref {
        Some(target) => target,
        None => epa.spec.scale_target_ref,
    }
}

// ---------------------------------------------------------------------------
// The scheduler
// ---------------------------------------------------------------------------

/// What is to be done about a resource at a tick.
#[derive(Debug)]
pub enum ScrapeStep {
    /// Another replica scrapes it.
    NotOwned,
    /// It was scraped less than an interval ago.
    NotDue,
    /// Its pods are to be scraped.
    Due(ScrapeRound),
}

/// When resources are scraped next.
pub struct ScheduleView {
    /// For each resource, when it is scraped next and at which interval
    pub next_scrape: Map<Seq<char>, (u128, u128)>,
    /// When stale windows were last looked for
    pub last_eviction: u64,
}

impl ScheduleView {
    /// Whether a resource was scraped at the given interval, less than that ago.
    pub open spec fn waits(self, key: Seq<char>, interval: nat, now: u64) -> bool {
        &&& self.next_scrape.contains_key(key)
        &&& self.next_scrape[key].1 == interval
        &&& now < self.next_scrape[key].0
    }
}

/// Keeps track of when resources are scraped.
#[derive(Debug)]
pub struct Scheduler {
    next_scrape: NameMap<(u128, u128)>,
    last_eviction: u64,
}

impl View for Scheduler {
    type V = ScheduleView;

    closed spec fn view(&self) -> ScheduleView {
        ScheduleView { next_scrape: self.next_scrape@, last_eviction: self.last_eviction }
    }
}

/// Whether `step` is what is to be done about a resource that this replica scrapes.
pub open spec fn step_for(
    step: Result<ScrapeStep, String>,
    schedule: ScheduleView,
    key: Seq<char>,
    epa: ExternalPodAutoscaler,
    timing: (Seq<char>, Seq<char>, nat, nat),
    now: u64,
) -> bool {
    if schedule.waits(key, timing.3, now) {
        step matches Ok(ScrapeStep::NotDue)
    } else if samples_kept(timing.2, timing.3) > usize::MAX {
        step matches Err(m) && m@ == "Evaluation period of "@ + key + " is too long"@
    } else {
        step matches Ok(ScrapeStep::Due(round)) && {
            &&& round.namespace@ == timing.0
            &&& round.name@ == timing.1
            &&& round.evaluation_period == timing.2
            &&& round.interval == timing.3
            &&& round.interval <= LONGEST
            &&& round.max_samples == samples_kept(timing.2, timing.3)
            &&& round.use_insecure_tls == insecure(epa)
            &&& round.target == scrape_target(epa)
        }
    }
}

impl Scheduler {
    /// Creates a new `Scheduler`.
    pub fn new(now: u64) -> (r: Scheduler)
        ensures
            r@.next_scrape == Map::<Seq<char>, (u128, u128)>::empty(),
            r@.last_eviction == now,
    {
        Scheduler { next_scrape: NameMap::new(), last_eviction: now }
    }

    /// What is to be done about a resource that this replica scrapes, given its
    /// timing.
    fn step(
        &self,
        key: &str,
        epa: &ExternalPodAutoscaler,
        timing: (String, String, u128, u128),
        now: u64,
    ) -> (r: Result<ScrapeStep, String>)
        requires
            timing.3 <= LONGEST,
        ensures
            step_for(
                r,
                self@,
                key@,
                *epa,
                (timing.0@, timing.1@, timing.2 as nat, timing.3 as nat),
                now,
            ),
    {
        let (namespace, name, evaluation_period, interval) = timing;
        if let Some(next) = self.next_scrape.get(key) {
            if next.1 == interval && (now as u128) < next.0 {
                return Ok(ScrapeStep::NotDue);
            }
        }
        let max_samples: usize = match max_samples(evaluation_period, interval) {
            Some(n) => n,
            None => {
                let mut m = "Evaluation period of ".to_owned();
                m.append(key);
                m.append(" is too long");
                return Err(m);
            },
        };
        let use_insecure_tls = match &epa.spec.scrape.tls {
            Some(tls) => tls.insecure_skip_verify,
            None => false,
        };
        let target = match &epa.spec.scrape_target_ref {
            Some(target) => target.copy(),
            None => epa.spec.scale_target_ref.copy(),
        };
        Ok(
            ScrapeStep::Due(
                ScrapeRound {
                    namespace,
                    name,
                    evaluation_period,
                    interval,
                    max_samples,
                    use_insecure_tls,
                    target,
                },
            ),
        )
    }

    /// Process a single EPA: check ownership and timing. It is an error where the key
    /// is malformed or a duration cannot be read; ownership is then left as it was. It
    /// is an error, too, where the samples of an evaluation period are more than can
    /// be counted.
    pub fn process_epa(
        &self,
        ownership: &mut EpaOwnership,
        membership: &MembershipManager,
        key: &str,
        epa: &ExternalPodAutoscaler,
        now: u64,
    ) -> (r: Result<ScrapeStep, String>)
        ensures
            match timing_of(key@, *epa) {
                Err(m) => final(ownership)@ == old(ownership)@ && (r matches Err(e) && e@ == m),
                Ok(timing) => {
                    &&& exists|mine: bool| #[trigger]
                        may_find(
                            membership.active_set(),
                            key_of(timing.0, timing.1),
                            membership.id(),
                            mine,
                        ) && final(ownership)@ == old(ownership)@.refreshed(
                            key_of(timing.0, timing.1),
                            mine,
                            timing.2 as u128,
                            now,
                        )
                    &&& if final(ownership)@.scrapes(key_of(timing.0, timing.1)) {
                        step_for(r, self@, key@, *epa, timing, now)
                    } else {
                        r matches Ok(ScrapeStep::NotOwned)
                    }
                },
            },
    {
        match timing(key, epa) {
            Ok(t) => {
                ownership.refresh_ownership(membership, t.0.as_str(), t.1.as_str(), t.2, now);
                if ownership.should_scrape_epa(t.0.as_str(), t.1.as_str()) {
                    self.step(key, epa, t, now)
                } else {
                    Ok(ScrapeStep::NotOwned)
                }
            },
            Err(m) => Err(m),
        }
    }

    /// Once the pods of a resource are known: sets when it is scraped next, and how
    /// its metrics are aggregated. The schedule advances whether or not there are
    /// pods. It stops at a metric whose evaluation period cannot be read.
    pub fn start_round(
        &mut self,
        store: &mut MetricsStore,
        key: &str,
        epa: &ExternalPodAutoscaler,
        round: &ScrapeRound,
        now: u64,
    ) -> (r: Result<(), String>)
        requires
            now + round.interval <= u128::MAX,
        ensures
            final(self)@.last_eviction == old(self)@.last_eviction,
            final(self)@.next_scrape == old(self)@.next_scrape.insert(
                key@,
                ((now + round.interval) as u128, round.interval),
            ),
            round_started(
                old(store)@,
                final(store)@,
                round.namespace@,
                round.name@,
                *epa,
                round.evaluation_period,
                r,
            ),
    {
        self.next_scrape.insert(key.to_owned(), (now as u128 + round.interval, round.interval));
        let ghost start = store@;
        let metrics = &epa.spec.metrics;
        let mut i: usize = 0;
        while i < metrics.len()
            invariant
                i <= metrics@.len(),
                metrics == epa.spec.metrics,
                start == old(store)@,
                self@.last_eviction == old(self)@.last_eviction,
                self@.next_scrape == old(self)@.next_scrape.insert(
                    key@,
                    ((now + round.interval) as u128, round.interval),
                ),
                store@ == configured(
                    start,
                    round.namespace@,
                    round.name@,
                    *epa,
                    round.evaluation_period,
                    i as int,
                ),
                forall|k: int|
                    0 <= k < i ==> config_of(
                        *epa,
                        #[trigger] epa.spec.metrics@[k],
                        round.evaluation_period,
                    ) is Ok,
            decreases metrics.len() - i,
        {
            match metric_config(epa, &metrics[i], round.evaluation_period) {
                Ok(config) => {
                    store.set_metric_config(
                        round.namespace.as_str(),
                        round.name.as_str(),
                        metrics[i].metric_name.as_str(),
                        config,
                    );
                },
                Err(m) => {
                    assert(epa.spec.metrics@[i as int] == metrics@[i as int]);
                    return Err(m);
                },
            }
            i += 1;
        }
        Ok(())
    }

    /// Ends a tick: forgets the resources that are gone, and from time to time drops
    /// the windows into which nothing was stored for long.
    pub fn finish_tick(&mut self, active: &NameSet, store: &mut MetricsStore, now: u64) -> (evicted:
        usize)
        ensures
            final(self)@.next_scrape == old(self)@.next_scrape.restrict(active@),
            elapsed(now, old(self)@.last_eviction) >= EVICTION_INTERVAL ==> {
                let stale = stale_windows(old(store)@.windows, MAX_WINDOW_AGE, now);
                &&& final(self)@.last_eviction == now
                &&& final(store)@ == (StoreView {
                    windows: old(store)@.windows.remove_keys(stale),
                    ..old(store)@
                })
                &&& evicted == stale.len()
            },
            elapsed(now, old(self)@.last_eviction) < EVICTION_INTERVAL ==> {
                &&& final(self)@.last_eviction == old(self)@.last_eviction
                &&& final(store)@ == old(store)@
                &&& evicted == 0
            },
    {
        self.next_scrape.retain(active);
        if since(now, self.last_eviction) >= EVICTION_INTERVAL {
            self.last_eviction = now;
            store.evict_stale_windows(MAX_WINDOW_AGE, now)
        } else {
            0
        }
    }
}

/// Whether it was set how a resource's metrics are aggregated, up to the first metric
/// of which that cannot be read.
pub open spec fn round_started(
    before: StoreView,
    after: StoreView,
    namespace: Seq<char>,
    name: Seq<char>,
    epa: ExternalPodAutoscaler,
    evaluation_period: u128,
    r: Result<(), String>,
) -> bool {
    let metrics = epa.spec.metrics@;
    match r {
        Ok(()) => {
            &&& forall|k: int|
                0 <= k < metrics.len() ==> config_of(
                    epa,
                    #[trigger] metrics[k],
                    evaluation_period,
                ) is Ok
            &&& after == configured(
                before,
                namespace,
                name,
                epa,
                evaluation_period,
                metrics.len() as int,
            )
        },
        Err(m) => exists|i: int|
            {
                &&& 0 <= i < metrics.len()
                &&& config_of(epa, #[trigger] metrics[i], evaluation_period) == Err::<
                    MetricConfig,
                    Seq<char>,
                >(m@)
                &&& forall|k: int|
                    0 <= k < i ==> config_of(epa, #[trigger] metrics[k], evaluation_period) is Ok
                &&& after == configured(before, namespace, name, epa, evaluation_period, i)
            },
    }
}

} // verus!
