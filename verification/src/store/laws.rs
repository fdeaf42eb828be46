//! What holds of the store as a whole.

use crate::apis::externalpodautoscaler::AggregationType;
use crate::duration::elapsed;
use crate::names::NameSet;
use crate::store::ops::{expired, MetricsStore, StatsHandle, StoreView};
use crate::store::table::belongs;
use crate::store::types::{
    counts_added, default_config, metric_key, one_counted, resource_key, window_key,
    CachedAggregation, LabeledSample, MetricConfig, SampleKey, SampleView,
};
use crate::store::window::{behind, MetricWindow, WindowView};
use vstd::prelude::*;

verus! {

/// A window never holds more samples than it retains, but for one sample where it
/// retains none.
pub proof fn law_window_bounded(window: WindowView, sample: SampleView)
    requires
        window.samples.len() <= window.max_samples || window.samples.len() <= 1,
    ensures
        ({
            let next = window.pushed(sample);
            &&& next.max_samples == window.max_samples
            &&& next.samples.len() <= next.max_samples || next.samples.len() <= 1
        }),
{
}

/// A window is first in, first out: the sample that comes stands last, and what goes
/// is the oldest.
pub proof fn law_window_first_in_first_out(window: WindowView, sample: SampleView)
    ensures
        ({
            let next = window.pushed(sample);
            &&& next.samples.last() == sample
            &&& next.samples.drop_last() == window.samples || next.samples.drop_last()
                == window.samples.drop_first()
            &&& window.samples.len() < window.max_samples ==> next.samples.drop_last()
                == window.samples
        }),
{
    let next = window.pushed(sample);
    if window.samples.len() >= window.max_samples && window.samples.len() > 0 {
        assert(next.samples.drop_last() =~= window.samples.drop_first());
    } else {
        assert(next.samples.drop_last() =~= window.samples);
    }
}

/// A sample that is added stands last in its window, and no other window changes.
pub proof fn law_sample_is_stored(
    store: StoreView,
    key: Seq<Seq<char>>,
    sample: SampleView,
    max_samples: nat,
    other: Seq<Seq<char>>,
)
    ensures
        ({
            let next = store.sample_pushed(key, sample, max_samples);
            &&& next.windows.contains_key(key)
            &&& next.windows[key].samples.last() == sample
            &&& other != key ==> next.windows.contains_key(other) == store.windows.contains_key(
                other,
            )
            &&& other != key && store.windows.contains_key(other) ==> next.windows[other]
                == store.windows[other]
        }),
{
}

/// An aggregated value that is held is given back until its time is over, and the
/// values of other metrics stay as they were.
pub proof fn law_cached_value_is_given_back(
    store: StoreView,
    key: Seq<Seq<char>>,
    value: u64,
    ttl: u128,
    stored: u64,
    now: u64,
    other: Seq<Seq<char>>,
)
    ensures
        ({
            let next = StoreView {
                cache: store.cache.insert(key, CachedAggregation { value, computed_at: stored, ttl }),
                ..store
            };
            &&& next.cached(key, now) == (if elapsed(now, stored) < ttl {
                Some(value)
            } else {
                None
            })
            &&& other != key ==> next.cached(other, now) == store.cached(other, now)
        }),
{
}

/// A configuration that is held is given back, and those of other metrics stay as
/// they were.
pub proof fn law_config_is_given_back(
    store: StoreView,
    key: Seq<Seq<char>>,
    config: MetricConfig,
    other: Seq<Seq<char>>,
)
    ensures
        ({
            let next = StoreView { configs: store.configs.insert(key, config), ..store };
            &&& next.config(key) == config
            &&& other != key ==> next.config(other) == store.config(other)
        }),
{
}

/// Once a resource is removed, nothing of it is left.
pub proof fn law_removed_resource_is_gone(
    store: StoreView,
    namespace: Seq<char>,
    epa_name: Seq<char>,
    metric_name: Seq<char>,
    pod_name: Seq<char>,
    now: u64,
)
    ensures
        ({
            let next = store.resource_removed(namespace, epa_name);
            let key = metric_key(namespace, epa_name, metric_name);
            &&& !next.windows.contains_key(window_key(namespace, epa_name, metric_name, pod_name))
            &&& next.cached(key, now) is None
            &&& next.config(key) == default_config()
            &&& next.stat(resource_key(namespace, epa_name)) == (0i32, 0i32)
        }),
{
}

/// The removal of a resource leaves what belongs to others as it is.
pub proof fn law_removal_leaves_others(
    store: StoreView,
    namespace: Seq<char>,
    epa_name: Seq<char>,
    key: Seq<Seq<char>>,
    now: u64,
)
    requires
        !belongs(key, namespace, epa_name),
    ensures
        ({
            let next = store.resource_removed(namespace, epa_name);
            &&& next.windows.contains_key(key) == store.windows.contains_key(key)
            &&& store.windows.contains_key(key) ==> next.windows[key] == store.windows[key]
            &&& next.cached(key, now) == store.cached(key, now)
            &&& next.config(key) == store.config(key)
            &&& next.stat(key) == store.stat(key)
        }),
{
}

/// A clean-up of aggregations takes away none that could be read, then or later.
pub proof fn law_cleanup_is_not_seen(
    store: StoreView,
    cleaned: u64,
    key: Seq<Seq<char>>,
    now: u64,
)
    requires
        cleaned <= now,
    ensures
        ({
            let next = StoreView {
                cache: store.cache.remove_keys(expired(store.cache, cleaned)),
                ..store
            };
            next.cached(key, now) == store.cached(key, now)
        }),
{
}

/// Counts of successes and failures, once the outcomes of scrapes were counted.
pub open spec fn all_counted(counts: (i32, i32), outcomes: Seq<bool>) -> (i32, i32)
    decreases outcomes.len(),
{
    if outcomes.len() == 0 {
        counts
    } else {
        one_counted(all_counted(counts, outcomes.drop_last()), outcomes.last())
    }
}

/// A snapshot that is restored is as if it had not been taken, whatever was counted
/// between the two: no scrape is lost and none is counted twice.
pub proof fn law_restore_undoes_snapshot(taken: (i32, i32), outcomes: Seq<bool>)
    ensures
        counts_added(all_counted((0i32, 0i32), outcomes), taken) == all_counted(taken, outcomes),
    decreases outcomes.len(),
{
    if outcomes.len() > 0 {
        law_restore_undoes_snapshot(taken, outcomes.drop_last());
    }
}

/// What is counted for a resource is seen by all that ask for its statistics, and not
/// by those that ask for the statistics of another.
pub proof fn law_statistics_are_shared(
    store: StoreView,
    key: Seq<Seq<char>>,
    other: Seq<Seq<char>>,
    success: bool,
)
    ensures
        ({
            let next = store.stat_set(key, one_counted(store.stat(key), success));
            &&& next.stat(key) == one_counted(store.stat(key), success)
            &&& other != key ==> next.stat(other) == store.stat(other)
        }),
{
}

// ---------------------------------------------------------------------------
// Windows
// ---------------------------------------------------------------------------

/// A sample that is added to a window stands last in it. A window that is full loses its
/// oldest sample for that, and no other; one that is not loses none.
pub proof fn law_window_takes_a_sample(window: &mut MetricWindow, sample: LabeledSample)
    requires
        call_ensures(MetricWindow::push, (window, sample), ()),
    ensures
        final(window)@.max_samples == old(window)@.max_samples,
        final(window)@.samples.len() > 0,
        final(window)@.samples.last().value == sample.value@,
        final(window)@.samples.last().scraped_at == sample.scraped_at,
        final(window)@.samples.last().success == sample.success,
        final(window)@.samples.last().metric_type == sample.metric_type,
        old(window)@.samples.len() < old(window)@.max_samples ==> final(
            window)@.samples.drop_last() == old(window)@.samples,
        old(window)@.samples.len() >= old(window)@.max_samples && old(window)@.samples.len() > 0
            ==> final(window)@.samples.drop_last() == old(window)@.samples.drop_first(),
{
    law_window_first_in_first_out(old(window)@, sample@);
    let next = old(window)@.pushed(sample@);
    if old(window)@.samples.len() >= old(window)@.max_samples && old(window)@.samples.len() > 0 {
        assert(next.samples.drop_last() =~= old(window)@.samples.drop_first());
    }
}

proof fn lemma_recent(samples: Seq<SampleView>, period: u128, now: u64, sample: SampleView)
    ensures
        samples.push(sample).filter(|s: SampleView| elapsed(now, s.scraped_at) <= period) == (if now
            - sample.scraped_at <= period {
            samples.filter(|s: SampleView| elapsed(now, s.scraped_at) <= period).push(sample)
        } else {
            samples.filter(|s: SampleView| elapsed(now, s.scraped_at) <= period)
        }),
{
    reveal_with_fuel(Seq::filter, 2);
    assert(samples.push(sample).drop_last() =~= samples);
}

/// The samples of a period are those that are no older than it, in their order: one more
/// sample of a window is one more of them, behind the others, where it is no older, and
/// else changes nothing. Without samples there are none.
pub proof fn law_samples_in_a_period(
    window: &MetricWindow,
    more: &MetricWindow,
    period: u128,
    now: u64,
    sample: LabeledSample,
    a: Vec<&LabeledSample>,
    b: Vec<&LabeledSample>,
)
    requires
        call_ensures(MetricWindow::get_samples_in_period, (window, period, now), a),
        call_ensures(MetricWindow::get_samples_in_period, (more, period, now), b),
        more.samples@ == window.samples@.push(sample),
    ensures
        window.samples@.len() == 0 ==> a@.len() == 0,
        b@.len() == a@.len() + (if now - sample.scraped_at <= period {
            1int
        } else {
            0int
        }),
        forall|i: int| 0 <= i < a@.len() ==> (#[trigger] b@[i])@ == a@[i]@,
        now - sample.scraped_at <= period ==> b@.last()@ == sample@,
{
    let old_samples = window@.samples;
    assert(more@.samples =~= old_samples.push(sample@));
    lemma_recent(old_samples, period, now, sample@);
    reveal_with_fuel(Seq::filter, 2);
    let x = behind(a@);
    let y = behind(b@);
    assert(x.len() == a@.len());
    assert(y.len() == b@.len());
    assert forall|i: int| 0 <= i < a@.len() implies (#[trigger] b@[i])@ == a@[i]@ by {
        assert(x[i] == a@[i]@);
        assert(y[i] == b@[i]@);
    }
    if now - sample.scraped_at <= period {
        assert(y[a@.len() as int] == b@[a@.len() as int]@);
    }
}

/// The age of a window is that of its last sample; it is sufficient where enough of its
/// samples are of a period.
pub proof fn law_age_of_a_window(
    window: &MetricWindow,
    period: u128,
    least: usize,
    now: u64,
    age: Option<u64>,
    recent: Vec<&LabeledSample>,
    enough: bool,
)
    requires
        call_ensures(MetricWindow::newest_sample_age, (window, now), age),
        call_ensures(MetricWindow::get_samples_in_period, (window, period, now), recent),
        call_ensures(MetricWindow::is_window_sufficient, (window, period, least, now), enough),
    ensures
        age is None <==> window.samples@.len() == 0,
        age is Some && now >= window.samples@.last().scraped_at ==> age->0 == now
            - window.samples@.last().scraped_at,
        enough == (recent@.len() >= least),
{
    assert(behind(recent@).len() == recent@.len());
    if window.samples@.len() > 0 {
        let n = window.samples@.len() - 1;
        assert(window@.samples[n] == window.samples@[n]@);
    }
}

// ---------------------------------------------------------------------------
// The store
// ---------------------------------------------------------------------------

/// A sample goes into the window of its key: behind the samples that are there, or into a
/// new window that retains as many as is said. Nothing else changes.
pub proof fn law_store_takes_a_sample(
    store: &mut MetricsStore,
    key: SampleKey,
    sample: LabeledSample,
    max: usize,
    parts: Seq<Seq<char>>,
    other: Seq<Seq<char>>,
)
    requires
        call_ensures(MetricsStore::push_sample, (store, key, sample, max), ()),
        parts == seq![key.namespace@, key.epa_name@, key.metric_name@, key.pod_name@],
        other != parts,
    ensures
        final(store)@.windows.contains_key(parts),
        final(store)@.windows[parts].samples.len() > 0,
        final(store)@.windows[parts].samples.last() == sample@,
        !old(store)@.windows.contains_key(parts) ==> final(store)@.windows[parts].samples.len() == 1
            && final(store)@.windows[parts].max_samples == max,
        old(store)@.windows.contains_key(parts) ==> ({
            let before = old(store)@.windows[parts];
            let after = final(store)@.windows[parts];
            &&& after.max_samples == before.max_samples
            &&& before.samples.len() < before.max_samples ==> after.samples.drop_last()
                == before.samples
            &&& before.samples.len() >= before.max_samples && before.samples.len() > 0
                ==> after.samples.drop_last() == before.samples.drop_first()
        }),
        final(store)@.windows.contains_key(other) == old(store)@.windows.contains_key(other),
        old(store)@.windows.contains_key(other) ==> final(store)@.windows[other]
            == old(store)@.windows[other],
        final(store)@.cache == old(store)@.cache,
        final(store)@.configs == old(store)@.configs,
        final(store)@.stats == old(store)@.stats,
{
    assert(key.parts() =~= parts);
    if old(store)@.windows.contains_key(parts) {
        let before = old(store)@.windows[parts];
        let after = before.pushed(sample@);
        if before.samples.len() >= before.max_samples && before.samples.len() > 0 {
            assert(after.samples.drop_last() =~= before.samples.drop_first());
        } else {
            assert(after.samples.drop_last() =~= before.samples);
        }
    }
}

/// The windows of a metric are those that are held for the pods of this resource and this
/// metric: each of them, once, and none of another metric or resource.
pub proof fn law_windows_of_a_metric(
    store: &MetricsStore,
    namespace: &str,
    name: &str,
    metric: &str,
    r: Vec<(String, MetricWindow)>,
    pod: Seq<char>,
)
    requires
        call_ensures(MetricsStore::get_windows, (store, namespace, name, metric), r),
    ensures
        store@.windows.contains_key(seq![namespace@, name@, metric@, pod]) == exists|i: int|
            0 <= i < r@.len() && (#[trigger] r@[i]).0@ == pod,
        forall|i: int|
            0 <= i < r@.len() && (#[trigger] r@[i]).0@ == pod ==> r@[i].1@
                == store@.windows[seq![namespace@, name@, metric@, pod]],
        forall|i: int, j: int|
            0 <= i < j < r@.len() ==> (#[trigger] r@[i]).0@ != (#[trigger] r@[j]).0@,
{
    let key = window_key(namespace@, name@, metric@, pod);
    assert(key =~= seq![namespace@, name@, metric@, pod]);
    if store@.windows.contains_key(key) {
        assert(store@.windows.contains_key(window_key(namespace@, name@, metric@, pod)));
    }
}

/// A value that was aggregated is read until its time is over, and not after; it takes the
/// place of an earlier one. The values of other metrics stay.
pub proof fn law_cached_value_is_read(
    store: &mut MetricsStore,
    namespace: &str,
    name: &str,
    metric: &str,
    value: u64,
    ttl: u128,
    stored: u64,
    after: &MetricsStore,
    now: u64,
    r: Option<u64>,
    other: Seq<Seq<char>>,
)
    requires
        call_ensures(
            MetricsStore::cache_result,
            (store, namespace, name, metric, value, ttl, stored),
            (),
        ),
        after@ == final(store)@,
        call_ensures(MetricsStore::get_cached, (after, namespace, name, metric, now), r),
        other != seq![namespace@, name@, metric@],
    ensures
        stored <= now ==> r == (if now - stored < ttl {
            Some(value)
        } else {
            None
        }),
        final(store)@.cached(other, now) == old(store)@.cached(other, now),
        final(store)@.windows == old(store)@.windows,
        final(store)@.configs == old(store)@.configs,
        final(store)@.stats == old(store)@.stats,
{
}

/// How a metric is aggregated is read as it was set last, and where it was not set, it is
/// the average over a minute. Other metrics stay as they are.
pub proof fn law_configuration_is_read(
    store: &mut MetricsStore,
    namespace: &str,
    name: &str,
    metric: &str,
    config: MetricConfig,
    after: &MetricsStore,
    r: MetricConfig,
    other: Seq<Seq<char>>,
)
    requires
        call_ensures(MetricsStore::set_metric_config, (store, namespace, name, metric, config), ()),
        after@ == final(store)@,
        call_ensures(MetricsStore::get_metric_config, (after, namespace, name, metric), r),
        other != seq![namespace@, name@, metric@],
    ensures
        r == config,
        final(store)@.config(other) == old(store)@.config(other),
        !old(store)@.configs.contains_key(other) ==> final(store)@.config(other).aggregation_type
            == AggregationType::Avg && final(store)@.config(other).evaluation_period
            == 60_000_000_000,
        final(store)@.windows == old(store)@.windows,
        final(store)@.cache == old(store)@.cache,
        final(store)@.stats == old(store)@.stats,
{
}

/// Of a resource that is removed nothing is left, and all of the others is.
pub proof fn law_resource_is_removed(
    store: &mut MetricsStore,
    namespace: &str,
    name: &str,
    key: Seq<Seq<char>>,
)
    requires
        call_ensures(MetricsStore::remove_epa_windows, (store, namespace, name), ()),
        key.len() >= 2,
    ensures
        key[0] == namespace@ && key[1] == name@ ==> {
            &&& !final(store)@.windows.contains_key(key)
            &&& !final(store)@.cache.contains_key(key)
            &&& !final(store)@.configs.contains_key(key)
            &&& !final(store)@.stats.contains_key(key)
        },
        key[0] != namespace@ || key[1] != name@ ==> {
            &&& final(store)@.windows.contains_key(key) == old(store)@.windows.contains_key(key)
            &&& final(store)@.cache.contains_key(key) == old(store)@.cache.contains_key(key)
            &&& final(store)@.configs.contains_key(key) == old(store)@.configs.contains_key(key)
            &&& final(store)@.stats.contains_key(key) == old(store)@.stats.contains_key(key)
            &&& old(store)@.windows.contains_key(key) ==> final(store)@.windows[key]
                == old(store)@.windows[key]
            &&& old(store)@.cache.contains_key(key) ==> final(store)@.cache[key]
                == old(store)@.cache[key]
            &&& old(store)@.configs.contains_key(key) ==> final(store)@.configs[key]
                == old(store)@.configs[key]
            &&& old(store)@.stats.contains_key(key) ==> final(store)@.stats[key]
                == old(store)@.stats[key]
        },
{
}

/// A window is evicted exactly where its newest sample is older than is allowed. Windows
/// without samples stay, and so does everything else.
pub proof fn law_stale_windows_go(
    store: &mut MetricsStore,
    max_age: u128,
    now: u64,
    count: usize,
    key: Seq<Seq<char>>,
)
    requires
        call_ensures(MetricsStore::evict_stale_windows, (store, max_age, now), count),
    ensures
        final(store)@.windows.contains_key(key) == (old(store)@.windows.contains_key(key) && !(
        old(store)@.windows[key].samples.len() > 0 && now
            - old(store)@.windows[key].samples.last().scraped_at > max_age)),
        final(store)@.windows.contains_key(key) ==> final(store)@.windows[key]
            == old(store)@.windows[key],
        final(store)@.cache == old(store)@.cache,
        final(store)@.configs == old(store)@.configs,
        final(store)@.stats == old(store)@.stats,
{
}

/// A clean-up drops exactly the aggregations whose time is over.
pub proof fn law_expired_aggregations_go(
    store: &mut MetricsStore,
    now: u64,
    count: usize,
    key: Seq<Seq<char>>,
)
    requires
        call_ensures(MetricsStore::cleanup_expired_cache, (store, now), count),
        old(store)@.cache.contains_key(key),
        old(store)@.cache[key].computed_at <= now,
    ensures
        final(store)@.cache.contains_key(key) == (now - old(store)@.cache[key].computed_at
            < old(store)@.cache[key].ttl),
        final(store)@.cache.contains_key(key) ==> final(store)@.cache[key]
            == old(store)@.cache[key],
        final(store)@.windows == old(store)@.windows,
        final(store)@.configs == old(store)@.configs,
        final(store)@.stats == old(store)@.stats,
{
}

/// Of the windows of a resource those of the pods that are still there stay, and the
/// others go; those of other resources stay.
pub proof fn law_windows_of_pods_that_are_gone(
    store: &mut MetricsStore,
    namespace: &str,
    name: &str,
    pods: &NameSet,
    count: usize,
    key: Seq<Seq<char>>,
)
    requires
        call_ensures(MetricsStore::retain_pod_windows, (store, namespace, name, pods), count),
        key.len() == 4,
    ensures
        final(store)@.windows.contains_key(key) == (old(store)@.windows.contains_key(key) && !(
        key[0] == namespace@ && key[1] == name@ && !pods@.contains(key[3]))),
        final(store)@.windows.contains_key(key) ==> final(store)@.windows[key]
            == old(store)@.windows[key],
        final(store)@.cache == old(store)@.cache,
        final(store)@.configs == old(store)@.configs,
        final(store)@.stats == old(store)@.stats,
{
}

/// A scrape that is counted through one handle is seen through every handle of the same
/// resource: as a success or as a failure, and one more of them.
pub proof fn law_handles_count_together(
    first: &StatsHandle,
    second: &StatsHandle,
    succeeded: &mut MetricsStore,
    failed: &mut MetricsStore,
    namespace: &str,
    name: &str,
    any: &MetricsStore,
)
    requires
        call_ensures(MetricsStore::get_scrape_stats, (any, namespace, name), *first),
        call_ensures(MetricsStore::get_scrape_stats, (any, namespace, name), *second),
        call_ensures(StatsHandle::record_success, (first, succeeded), ()),
        call_ensures(StatsHandle::record_error, (first, failed), ()),
    ensures
        second.key() == seq![namespace@, name@],
        ({
            let before = old(succeeded)@.stat(second.key());
            let after = final(succeeded)@.stat(second.key());
            &&& before.0 < i32::MAX ==> after.0 == before.0 + 1
            &&& after.1 == before.1
        }),
        ({
            let before = old(failed)@.stat(second.key());
            let after = final(failed)@.stat(second.key());
            &&& after.0 == before.0
            &&& before.1 < i32::MAX ==> after.1 == before.1 + 1
        }),
{
}

/// A snapshot gives what was counted and starts anew; a restore adds what it is given.
pub proof fn law_snapshot_and_restore(
    handle: &StatsHandle,
    taken: &mut MetricsStore,
    snapshot: (i32, i32),
    restored: &mut MetricsStore,
    scraped: i32,
    errors: i32,
)
    requires
        call_ensures(StatsHandle::snapshot_and_reset, (handle, taken), snapshot),
        call_ensures(StatsHandle::restore, (handle, restored, scraped, errors), ()),
    ensures
        snapshot == old(taken)@.stat(handle.key()),
        final(taken)@.stat(handle.key()) == (0i32, 0i32),
        ({
            let before = old(restored)@.stat(handle.key());
            let after = final(restored)@.stat(handle.key());
            &&& i32::MIN <= before.0 + scraped <= i32::MAX ==> after.0 == before.0 + scraped
            &&& i32::MIN <= before.1 + errors <= i32::MAX ==> after.1 == before.1 + errors
        }),
        final(restored)@.windows == old(restored)@.windows,
        final(taken)@.windows == old(taken)@.windows,
{
}

/// A value may be used while less time has passed since it was computed than it may live.
pub proof fn law_values_expire(
    value: u64,
    ttl: u128,
    computed: u64,
    now: u64,
    held: &CachedAggregation,
    r: bool,
)
    requires
        call_ensures(CachedAggregation::new, (value, ttl, computed), *held),
        call_ensures(CachedAggregation::is_valid, (held, now), r),
        computed <= now,
    ensures
        r == (now - computed < ttl),
        held.value == value,
{
}

} // verus!
