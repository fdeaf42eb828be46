//! The metrics store.

use crate::names::NameSet;
use crate::store::table::{
    belongs, entries, key_views, keys, lemma_pushed_contains, look_up, new_table, picked, pod_gone,
    put, sweep, take, Pick, Record, RecordView, Table,
};
use crate::store::types::{
    counts_added, default_config, metric_key, one_counted, resource_key, window_key, CacheKey,
    CachedAggregation, LabeledSample, MetricConfig, SampleKey, SampleView, ScrapeStats,
};
use crate::store::window::{MetricWindow, WindowView};
use crate::text::{same, views};
use vstd::prelude::*;

verus! {

/// What a store holds, by the parts of the keys.
#[verifier::ext_equal]
pub struct StoreView {
    /// The window of a metric of a pod, as a resource asks for it
    pub windows: Map<Seq<Seq<char>>, WindowView>,
    /// The last aggregation of a metric of a resource
    pub cache: Map<Seq<Seq<char>>, CachedAggregation>,
    /// How a metric of a resource is aggregated
    pub configs: Map<Seq<Seq<char>>, MetricConfig>,
    /// How many scrapes for a resource succeeded and how many failed
    pub stats: Map<Seq<Seq<char>>, (i32, i32)>,
}

/// The windows of a table.
pub open spec fn windows_in(m: Map<Seq<Seq<char>>, RecordView>) -> Map<Seq<Seq<char>>, WindowView> {
    Map::new(
        |k: Seq<Seq<char>>| m.contains_key(k) && m[k] is Window,
        |k: Seq<Seq<char>>| m[k]->Window_0,
    )
}

/// The aggregations of a table.
pub open spec fn cache_in(
    m: Map<Seq<Seq<char>>, RecordView>,
) -> Map<Seq<Seq<char>>, CachedAggregation> {
    Map::new(
        |k: Seq<Seq<char>>| m.contains_key(k) && m[k] is Aggregation,
        |k: Seq<Seq<char>>| m[k]->Aggregation_0,
    )
}

/// The configurations of a table.
pub open spec fn configs_in(
    m: Map<Seq<Seq<char>>, RecordView>,
) -> Map<Seq<Seq<char>>, MetricConfig> {
    Map::new(
        |k: Seq<Seq<char>>| m.contains_key(k) && m[k] is Config,
        |k: Seq<Seq<char>>| m[k]->Config_0,
    )
}

/// The statistics of a table.
pub open spec fn stats_in(m: Map<Seq<Seq<char>>, RecordView>) -> Map<Seq<Seq<char>>, (i32, i32)> {
    Map::new(
        |k: Seq<Seq<char>>| m.contains_key(k) && m[k] is Stats,
        |k: Seq<Seq<char>>| m[k]->Stats_0.counts(),
    )
}

/// The entries of a map whose keys do not belong to a resource.
pub open spec fn without<V>(
    m: Map<Seq<Seq<char>>, V>,
    namespace: Seq<char>,
    epa_name: Seq<char>,
) -> Map<Seq<Seq<char>>, V> {
    Map::new(
        |k: Seq<Seq<char>>| m.contains_key(k) && !belongs(k, namespace, epa_name),
        |k: Seq<Seq<char>>| m[k],
    )
}

/// The keys of the windows whose newest sample is older than `max_age`.
pub open spec fn stale_windows(
    m: Map<Seq<Seq<char>>, WindowView>,
    max_age: u128,
    now: u64,
) -> Set<Seq<Seq<char>>> {
    Set::new(|k: Seq<Seq<char>>| m.contains_key(k) && m[k].stale(max_age, now))
}

/// The keys of the aggregations that may no longer be used.
pub open spec fn expired(
    m: Map<Seq<Seq<char>>, CachedAggregation>,
    now: u64,
) -> Set<Seq<Seq<char>>> {
    Set::new(|k: Seq<Seq<char>>| m.contains_key(k) && !m[k].valid(now))
}

/// The keys of a resource's windows for pods that are not of a set.
pub open spec fn gone_windows(
    m: Map<Seq<Seq<char>>, WindowView>,
    namespace: Seq<char>,
    epa_name: Seq<char>,
    pods: Set<Seq<char>>,
) -> Set<Seq<Seq<char>>> {
    Set::new(
        |k: Seq<Seq<char>>|
            m.contains_key(k) && belongs(k, namespace, epa_name) && pod_gone(k, pods),
    )
}

impl StoreView {
    /// The window of a key; a new one where there is none.
    pub open spec fn window_or_new(self, key: Seq<Seq<char>>, max_samples: nat) -> WindowView {
        if self.windows.contains_key(key) {
            self.windows[key]
        } else {
            WindowView::empty(max_samples)
        }
    }

    /// The store once a sample was added to the window of a key.
    pub open spec fn sample_pushed(
        self,
        key: Seq<Seq<char>>,
        sample: SampleView,
        max_samples: nat,
    ) -> StoreView {
        StoreView {
            windows: self.windows.insert(
                key,
                self.window_or_new(key, max_samples).pushed(sample),
            ),
            ..self
        }
    }

    /// The value of a metric that was aggregated and may still be used.
    pub open spec fn cached(self, key: Seq<Seq<char>>, now: u64) -> Option<u64> {
        if self.cache.contains_key(key) && self.cache[key].valid(now) {
            Some(self.cache[key].value)
        } else {
            None
        }
    }

    /// How a metric is aggregated.
    pub open spec fn config(self, key: Seq<Seq<char>>) -> MetricConfig {
        if self.configs.contains_key(key) {
            self.configs[key]
        } else {
            default_config()
        }
    }

    /// How many scrapes for a resource succeeded and how many failed.
    pub open spec fn stat(self, key: Seq<Seq<char>>) -> (i32, i32) {
        if self.stats.contains_key(key) {
            self.stats[key]
        } else {
            (0i32, 0i32)
        }
    }

    /// The store with other counts for a resource.
    pub open spec fn stat_set(self, key: Seq<Seq<char>>, counts: (i32, i32)) -> StoreView {
        StoreView { stats: self.stats.insert(key, counts), ..self }
    }

    /// The store without anything of a resource.
    pub open spec fn resource_removed(
        self,
        namespace: Seq<char>,
        epa_name: Seq<char>,
    ) -> StoreView {
        StoreView {
            windows: without(self.windows, namespace, epa_name),
            cache: without(self.cache, namespace, epa_name),
            configs: without(self.configs, namespace, epa_name),
            stats: without(self.stats, namespace, epa_name),
        }
    }
}

/// Whether `windows` are those of one metric of a resource: one for each pod that has
/// one, and no other.
pub open spec fn windows_listed(
    windows: Seq<(String, MetricWindow)>,
    m: Map<Seq<Seq<char>>, WindowView>,
    namespace: Seq<char>,
    epa_name: Seq<char>,
    metric_name: Seq<char>,
) -> bool {
    &&& forall|i: int|
        0 <= i < windows.len() ==> m.contains_key(
            window_key(namespace, epa_name, metric_name, (#[trigger] windows[i]).0@),
        ) && m[window_key(namespace, epa_name, metric_name, windows[i].0@)] == windows[i].1@
    &&& forall|i: int, j: int|
        0 <= i < j < windows.len() ==> (#[trigger] windows[i]).0@ != (#[trigger] windows[j]).0@
    &&& forall|pod: Seq<char>| #[trigger]
        m.contains_key(window_key(namespace, epa_name, metric_name, pod)) ==> exists|i: int|
            0 <= i < windows.len() && (#[trigger] windows[i]).0@ == pod
}

/// Samples in sliding windows, aggregations of them, and how metrics are aggregated.
#[derive(Debug)]
pub struct MetricsStore {
    windows: Table,
    cache: Table,
    configs: Table,
    scrape_stats: Table,
}

impl View for MetricsStore {
    type V = StoreView;

    closed spec fn view(&self) -> StoreView {
        StoreView {
            windows: windows_in(entries(self.windows)),
            cache: cache_in(entries(self.cache)),
            configs: configs_in(entries(self.configs)),
            stats: stats_in(entries(self.scrape_stats)),
        }
    }
}

fn parts4(a: String, b: String, c: String, d: String) -> (r: Vec<String>)
    ensures
        views(r@) == window_key(a@, b@, c@, d@),
{
    let mut r: Vec<String> = Vec::new();
    r.push(a);
    r.push(b);
    r.push(c);
    r.push(d);
    assert(views(r@) =~= window_key(a@, b@, c@, d@));
    r
}

fn parts3(key: CacheKey) -> (r: Vec<String>)
    ensures
        views(r@) == key.parts(),
{
    let mut r: Vec<String> = Vec::new();
    r.push(key.namespace);
    r.push(key.epa_name);
    r.push(key.metric_name);
    assert(views(r@) =~= metric_key(r@[0]@, r@[1]@, r@[2]@));
    r
}

fn parts2(a: &str, b: &str) -> (r: Vec<String>)
    ensures
        views(r@) == resource_key(a@, b@),
{
    let mut r: Vec<String> = Vec::new();
    r.push(a.to_owned());
    r.push(b.to_owned());
    assert(views(r@) =~= resource_key(a@, b@));
    r
}

impl MetricsStore {
    /// Creates a new empty metrics store.
    pub fn new() -> (r: MetricsStore)
        ensures
            r@.windows == Map::<Seq<Seq<char>>, WindowView>::empty(),
            r@.cache == Map::<Seq<Seq<char>>, CachedAggregation>::empty(),
            r@.configs == Map::<Seq<Seq<char>>, MetricConfig>::empty(),
            r@.stats == Map::<Seq<Seq<char>>, (i32, i32)>::empty(),
    {
        MetricsStore {
            windows: new_table(),
            cache: new_table(),
            configs: new_table(),
            scrape_stats: new_table(),
        }
    }

    /// Adds a sample to the window of a key. Where there is no window yet, one is made
    /// that retains `max_samples` samples.
    pub fn push_sample(&mut self, key: SampleKey, sample: LabeledSample, max_samples: usize)
        ensures
            final(self)@ == old(self)@.sample_pushed(key.parts(), sample@, max_samples as nat),
    {
        let ghost k = key.parts();
        let parts = parts4(key.namespace, key.epa_name, key.metric_name, key.pod_name);
        let mut window = match take(&mut self.windows, &parts) {
            Some(Record::Window(window)) => window,
            _ => MetricWindow::new(max_samples),
        };
        window.push(sample);
        put(&mut self.windows, parts, Record::Window(window));
        assert(self@ =~~= old(self)@.sample_pushed(k, sample@, max_samples as nat));
    }

    /// The windows of a metric of a resource, each with its pod, in no particular
    /// order.
    pub fn get_windows(&self, namespace: &str, epa_name: &str, metric_name: &str) -> (r: Vec<
        (String, MetricWindow),
    >)
        ensures
            windows_listed(r@, self@.windows, namespace@, epa_name@, metric_name@),
    {
        let all = keys(&self.windows);
        let ghost m = entries(self.windows);
        let ghost names = key_views(all@);
        let mut r: Vec<(String, MetricWindow)> = Vec::new();
        let mut i: usize = 0;
        while i < all.len()
            invariant
                i <= all@.len(),
                m == entries(self.windows),
                names == key_views(all@),
                names.no_duplicates(),
                names.to_set() == m.dom(),
                forall|j: int|
                    0 <= j < r@.len() ==> windows_in(m).contains_key(
                        window_key(namespace@, epa_name@, metric_name@, (#[trigger] r@[j]).0@),
                    ) && windows_in(m)[window_key(
                        namespace@,
                        epa_name@,
                        metric_name@,
                        r@[j].0@,
                    )] == r@[j].1@ && names.take(i as int).contains(
                        window_key(namespace@, epa_name@, metric_name@, r@[j].0@),
                    ),
                forall|a: int, b: int|
                    0 <= a < b < r@.len() ==> (#[trigger] r@[a]).0@ != (#[trigger] r@[b]).0@,
                forall|pod: Seq<char>|
                    names.take(i as int).contains(
                        #[trigger] window_key(namespace@, epa_name@, metric_name@, pod),
                    ) && windows_in(m).contains_key(
                        window_key(namespace@, epa_name@, metric_name@, pod),
                    ) ==> exists|j: int| 0 <= j < r@.len() && (#[trigger] r@[j]).0@ == pod,
            decreases all.len() - i,
        {
            let key = &all[i];
            let ghost k = views(key@);
            let ghost before = r@;
            proof {
                assert(names[i as int] == k);
                assert(names.take(i + 1) =~= names.take(i as int).push(k));
                lemma_pushed_contains(names.take(i as int), k);
                lemma_not_before(names, i as int);
                assert(names.to_set().contains(k));
            }
            if key.len() == 4 && same(key[0].as_str(), namespace) && same(
                key[1].as_str(),
                epa_name,
            ) && same(key[2].as_str(), metric_name) {
                assert(k =~= window_key(namespace@, epa_name@, metric_name@, key@[3]@));
                if let Some(Record::Window(window)) = look_up(&self.windows, key) {
                    r.push((key[3].clone(), window));
                    assert(r@[before.len() as int].0@ == key@[3]@);
                }
            }
            proof {
                assert forall|pod: Seq<char>|
                    names.take(i + 1).contains(
                        #[trigger] window_key(namespace@, epa_name@, metric_name@, pod),
                    ) && windows_in(m).contains_key(
                        window_key(namespace@, epa_name@, metric_name@, pod),
                    ) implies exists|j: int| 0 <= j < r@.len() && (#[trigger] r@[j]).0@ == pod by {
                    let w = window_key(namespace@, epa_name@, metric_name@, pod);
                    if w == k {
                        assert(k[0] == key@[0]@ && k[1] == key@[1]@ && k[2] == key@[2]@ && k[3]
                            == key@[3]@);
                        assert(w[0] == namespace@ && w[1] == epa_name@ && w[2] == metric_name@
                            && w[3] == pod);
                        assert(r@[before.len() as int].0@ == pod);
                    } else {
                        assert(names.take(i as int).contains(w));
                        let j = choose|j: int|
                            0 <= j < before.len() && (#[trigger] before[j]).0@ == pod;
                        assert(r@[j] == before[j]);
                    }
                }
            }
            i += 1;
        }
        proof {
            assert(names.take(i as int) =~= names);
            assert forall|pod: Seq<char>| #[trigger]
                self@.windows.contains_key(
                    window_key(namespace@, epa_name@, metric_name@, pod),
                ) implies exists|j: int| 0 <= j < r@.len() && (#[trigger] r@[j]).0@ == pod by {
                let w = window_key(namespace@, epa_name@, metric_name@, pod);
                assert(names.to_set().contains(w));
                assert(names.take(i as int).contains(w));
            }
        }
        r
    }

    /// The aggregated value of a metric, where one is held that may still be used.
    pub fn get_cached(&self, namespace: &str, epa_name: &str, metric_name: &str, now: u64) -> (r:
        Option<u64>)
        ensures
            r == self@.cached(metric_key(namespace@, epa_name@, metric_name@), now),
    {
        let key = CacheKey::new(
            namespace.to_owned(),
            epa_name.to_owned(),
            metric_name.to_owned(),
        );
        match look_up(&self.cache, &parts3(key)) {
            Some(Record::Aggregation(c)) => {
                if c.is_valid(now) {
                    Some(c.value)
                } else {
                    None
                }
            },
            _ => None,
        }
    }

    /// Holds the aggregated value of a metric, in place of an earlier one. It may be
    /// used until `ttl` has passed since `now`.
    pub fn cache_result(
        &mut self,
        namespace: &str,
        epa_name: &str,
        metric_name: &str,
        value: u64,
        ttl: u128,
        now: u64,
    )
        ensures
            final(self)@ == (StoreView {
                cache: old(self)@.cache.insert(
                    metric_key(namespace@, epa_name@, metric_name@),
                    CachedAggregation { value, computed_at: now, ttl },
                ),
                ..old(self)@
            }),
    {
        let key = CacheKey::new(
            namespace.to_owned(),
            epa_name.to_owned(),
            metric_name.to_owned(),
        );
        let ghost k = key.parts();
        let entry = CachedAggregation::new(value, ttl, now);
        put(&mut self.cache, parts3(key), Record::Aggregation(entry));
        assert(self@.cache =~= old(self)@.cache.insert(k, entry));
    }

    /// Holds how a metric is aggregated, in place of an earlier configuration.
    pub fn set_metric_config(
        &mut self,
        namespace: &str,
        epa_name: &str,
        metric_name: &str,
        config: MetricConfig,
    )
        ensures
            final(self)@ == (StoreView {
                configs: old(self)@.configs.insert(
                    metric_key(namespace@, epa_name@, metric_name@),
                    config,
                ),
                ..old(self)@
            }),
    {
        let key = CacheKey::new(
            namespace.to_owned(),
            epa_name.to_owned(),
            metric_name.to_owned(),
        );
        let ghost k = key.parts();
        put(&mut self.configs, parts3(key), Record::Config(config));
        assert(self@.configs =~= old(self)@.configs.insert(k, config));
    }

    /// How a metric is aggregated: as it was configured, else by default.
    pub fn get_metric_config(&self, namespace: &str, epa_name: &str, metric_name: &str) -> (r:
        MetricConfig)
        ensures
            r == self@.config(metric_key(namespace@, epa_name@, metric_name@)),
    {
        let key = CacheKey::new(
            namespace.to_owned(),
            epa_name.to_owned(),
            metric_name.to_owned(),
        );
        match look_up(&self.configs, &parts3(key)) {
            Some(Record::Config(c)) => c,
            _ => MetricConfig::default(),
        }
    }

    /// Drops the windows whose newest sample is older than `max_age`, and counts them.
    /// Windows without samples stay.
    pub fn evict_stale_windows(&mut self, max_age: u128, now: u64) -> (count: usize)
        ensures
            final(self)@ == (StoreView {
                windows: old(self)@.windows.remove_keys(
                    stale_windows(old(self)@.windows, max_age, now),
                ),
                ..old(self)@
            }),
            stale_windows(old(self)@.windows, max_age, now).finite(),
            count == stale_windows(old(self)@.windows, max_age, now).len(),
    {
        let ghost m = entries(self.windows);
        let pick = Pick::Stale { max_age, now };
        let count: usize = sweep(&mut self.windows, &pick);
        proof {
            let old_windows = old(self)@.windows;
            assert(picked(m, pick) =~= stale_windows(old_windows, max_age, now));
            assert(self@.windows =~= old_windows.remove_keys(
                stale_windows(old_windows, max_age, now),
            ));
        }
        count
    }

    /// Drops all that belongs to a resource: windows, aggregations, configurations and
    /// statistics.
    pub fn remove_epa_windows(&mut self, namespace: &str, epa_name: &str)
        ensures
            final(self)@ == old(self)@.resource_removed(namespace@, epa_name@),
    {
        let pick = Pick::OfResource { namespace, epa_name };
        sweep(&mut self.windows, &pick);
        sweep(&mut self.cache, &pick);
        sweep(&mut self.configs, &pick);
        sweep(&mut self.scrape_stats, &pick);
        assert(self@ =~~= old(self)@.resource_removed(namespace@, epa_name@));
    }

    /// Drops the aggregations that may no longer be used, and counts them.
    pub fn cleanup_expired_cache(&mut self, now: u64) -> (count: usize)
        ensures
            final(self)@ == (StoreView {
                cache: old(self)@.cache.remove_keys(expired(old(self)@.cache, now)),
                ..old(self)@
            }),
            expired(old(self)@.cache, now).finite(),
            count == expired(old(self)@.cache, now).len(),
    {
        let ghost m = entries(self.cache);
        let pick = Pick::Expired { now };
        let count: usize = sweep(&mut self.cache, &pick);
        proof {
            let old_cache = old(self)@.cache;
            assert(picked(m, pick) =~= expired(old_cache, now));
            assert(self@.cache =~= old_cache.remove_keys(expired(old_cache, now)));
        }
        count
    }

    /// Drops the windows of a resource for pods that are no longer there, and counts
    /// them.
    pub fn retain_pod_windows(&mut self, namespace: &str, epa_name: &str, pods: &NameSet) -> (count:
        usize)
        ensures
            final(self)@ == (StoreView {
                windows: old(self)@.windows.remove_keys(
                    gone_windows(old(self)@.windows, namespace@, epa_name@, pods@),
                ),
                ..old(self)@
            }),
            gone_windows(old(self)@.windows, namespace@, epa_name@, pods@).finite(),
            count == gone_windows(old(self)@.windows, namespace@, epa_name@, pods@).len(),
    {
        let ghost m = entries(self.windows);
        let pick = Pick::Gone { namespace, epa_name, pods };
        let count: usize = sweep(&mut self.windows, &pick);
        proof {
            let old_windows = old(self)@.windows;
            assert(picked(m, pick) =~= gone_windows(old_windows, namespace@, epa_name@, pods@));
            assert(self@.windows =~= old_windows.remove_keys(
                gone_windows(old_windows, namespace@, epa_name@, pods@),
            ));
        }
        count
    }

    /// The statistics of the scrapes for a resource. All that ask for those of one
    /// resource count together.
    pub fn get_scrape_stats(&self, namespace: &str, epa_name: &str) -> (r: StatsHandle)
        ensures
            r.key() == resource_key(namespace@, epa_name@),
    {
        StatsHandle { namespace: namespace.to_owned(), epa_name: epa_name.to_owned() }
    }

    fn stats_of(&self, parts: &Vec<String>) -> (r: ScrapeStats)
        ensures
            r.counts() == self@.stat(views(parts@)),
    {
        match look_up(&self.scrape_stats, parts) {
            Some(Record::Stats(stats)) => stats,
            _ => ScrapeStats::new(),
        }
    }

    fn set_stats(&mut self, parts: Vec<String>, stats: ScrapeStats)
        ensures
            final(self)@ == old(self)@.stat_set(views(parts@), stats.counts()),
    {
        let ghost key = views(parts@);
        put(&mut self.scrape_stats, parts, Record::Stats(stats));
        assert(self@ =~~= old(self)@.stat_set(key, stats.counts()));
    }
}

/// Stands for the statistics of the scrapes for one resource, which the store holds.
#[derive(Debug)]
pub struct StatsHandle {
    namespace: String,
    epa_name: String,
}

impl StatsHandle {
    /// Under what the statistics are held.
    pub closed spec fn key(&self) -> Seq<Seq<char>> {
        resource_key(self.namespace@, self.epa_name@)
    }

    fn parts(&self) -> (r: Vec<String>)
        ensures
            views(r@) == self.key(),
    {
        parts2(self.namespace.as_str(), self.epa_name.as_str())
    }

    /// Counts a successful scrape.
    pub fn record_success(&self, store: &mut MetricsStore)
        ensures
            final(store)@ == old(store)@.stat_set(
                self.key(),
                one_counted(old(store)@.stat(self.key()), true),
            ),
    {
        let parts = self.parts();
        let mut stats = store.stats_of(&parts);
        stats.record_success();
        store.set_stats(parts, stats);
    }

    /// Counts a failed scrape.
    pub fn record_error(&self, store: &mut MetricsStore)
        ensures
            final(store)@ == old(store)@.stat_set(
                self.key(),
                one_counted(old(store)@.stat(self.key()), false),
            ),
    {
        let parts = self.parts();
        let mut stats = store.stats_of(&parts);
        stats.record_error();
        store.set_stats(parts, stats);
    }

    /// What was counted, after which counting starts anew.
    pub fn snapshot_and_reset(&self, store: &mut MetricsStore) -> (r: (i32, i32))
        ensures
            r == old(store)@.stat(self.key()),
            final(store)@ == old(store)@.stat_set(self.key(), (0i32, 0i32)),
    {
        let parts = self.parts();
        let mut stats = store.stats_of(&parts);
        let r = stats.snapshot_and_reset();
        store.set_stats(parts, stats);
        r
    }

    /// Counts what an earlier snapshot took away.
    pub fn restore(&self, store: &mut MetricsStore, scraped: i32, errors: i32)
        ensures
            final(store)@ == old(store)@.stat_set(
                self.key(),
                counts_added(old(store)@.stat(self.key()), (scraped, errors)),
            ),
    {
        let parts = self.parts();
        let mut stats = store.stats_of(&parts);
        stats.restore(scraped, errors);
        store.set_stats(parts, stats);
    }
}

impl Default for MetricsStore {
    fn default() -> (r: MetricsStore)
        ensures
            r@.windows == Map::<Seq<Seq<char>>, WindowView>::empty(),
            r@.cache == Map::<Seq<Seq<char>>, CachedAggregation>::empty(),
            r@.configs == Map::<Seq<Seq<char>>, MetricConfig>::empty(),
            r@.stats == Map::<Seq<Seq<char>>, (i32, i32)>::empty(),
    {
        MetricsStore::new()
    }
}

proof fn lemma_not_before(s: Seq<Seq<Seq<char>>>, i: int)
    requires
        s.no_duplicates(),
        0 <= i < s.len(),
    ensures
        !s.take(i).contains(s[i]),
{
    if s.take(i).contains(s[i]) {
        let j = choose|j: int| 0 <= j < s.take(i).len() && s.take(i)[j] == s[i];
        assert(s[j] == s[i]);
    }
}

} // verus!
