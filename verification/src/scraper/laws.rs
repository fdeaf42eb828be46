//! What holds of collecting samples as a whole.

use crate::apis::externalpodautoscaler as resource;
use crate::apis::externalpodautoscaler::{
    ExternalPodAutoscaler, LabelSelectorOperator, MetricSpec,
};
use crate::duration::whole_seconds;
use crate::k8s::{LabelSelector, Pod, PodCondition};
use crate::labels::Labels;
use crate::laws::lemma_split_more;
use crate::scraper::parser::{read_text, MetricView, Progress};
use crate::scraper::pod_cache::{
    choose_pods, chosen_pods, first_condition_is, is_pod_ready, pair_views, parse_label_selector,
    piece_pair, piece_pairs, pod_matches_selector, pod_ready, pod_selected, selector_pairs,
    CacheView, EnsureStep, PodCache, SyncOutcome, SyncStep,
};
use crate::scraper::scheduler::{
    config_of, configured, intervals_in, samples_kept, ScheduleView,
};
use crate::scraper::selector::{
    equalities, equality, matches_label_selector, meets, selector_parts, selector_text,
};
use crate::scraper::worker::{
    answer_of, metrics_stored, plan_of, scrape_stored, scraped, Fetched, Target,
};
use crate::store::ops::StoreView;
use crate::store::types::{metric_key, window_key};
use crate::text::{
    is_space, joined, lemma_first_of, lemma_strip_end, lemma_strip_start, split_on, trimmed, views,
};
use vstd::prelude::*;

verus! {

// ---------------------------------------------------------------------------
// Selectors
// ---------------------------------------------------------------------------

proof fn lemma_joined_first(parts: Seq<Seq<char>>, sep: Seq<char>)
    requires
        parts.len() >= 2,
    ensures
        joined(parts, sep) == parts[0] + sep + joined(parts.drop_first(), sep),
    decreases parts.len(),
{
    reveal_with_fuel(joined, 3);
    if parts.len() > 2 {
        let front = parts.drop_last();
        lemma_joined_first(front, sep);
        assert(front.drop_first() =~= parts.drop_first().drop_last());
        assert(joined(parts, sep) =~= parts[0] + sep + joined(parts.drop_first(), sep));
    } else {
        assert(joined(parts.drop_last(), sep) == parts[0]);
        assert(joined(parts.drop_first(), sep) == parts[1]);
    }
}

proof fn lemma_split_joined(parts: Seq<Seq<char>>)
    requires
        parts.len() > 0,
        forall|i: int| 0 <= i < parts.len() ==> !(#[trigger] parts[i]).contains(','),
    ensures
        split_on(joined(parts, ","@), ',') == parts,
    decreases parts.len(),
{
    reveal_strlit(",");
    let text = joined(parts, ","@);
    let first = parts[0];
    if parts.len() == 1 {
        assert forall|j: int| 0 <= j < text.len() implies text[j] != ',' by {
            if text[j] == ',' {
                assert(first.contains(','));
            }
        }
        lemma_first_of(text, ',', text.len() as int);
        assert(split_on(text, ',') =~= parts);
    } else {
        let rest = parts.drop_first();
        lemma_joined_first(parts, ","@);
        let n = first.len() as int;
        assert forall|j: int| 0 <= j < n implies text[j] != ',' by {
            assert(text[j] == first[j]);
            if text[j] == ',' {
                assert(first.contains(','));
            }
        }
        assert(text[n] == ',');
        lemma_first_of(text, ',', n);
        assert(text.take(n) =~= first);
        assert(text.skip(n + 1) =~= joined(rest, ","@));
        assert forall|i: int| 0 <= i < rest.len() implies !(#[trigger] rest[i]).contains(',') by {
            assert(rest[i] == parts[i + 1]);
        }
        lemma_split_joined(rest);
        assert(split_on(text, ',') =~= parts);
    }
}

/// Whether a text has no whitespace at its ends and holds no `,`.
pub open spec fn is_plain(s: Seq<char>) -> bool {
    &&& !s.contains(',')
    &&& s.len() > 0 ==> !is_space(s[0]) && !is_space(s.last())
}

/// Whether a label can be written in a selector and read again: its key is not empty
/// and holds no `=`, and key and value are plain.
pub open spec fn is_plain_pair(pair: (Seq<char>, Seq<char>)) -> bool {
    &&& pair.0.len() > 0
    &&& !pair.0.contains('=')
    &&& is_plain(pair.0)
    &&& is_plain(pair.1)
}

proof fn lemma_plain_trimmed(s: Seq<char>)
    requires
        is_plain(s),
    ensures
        trimmed(s) == s,
{
    let drop = |c: char| is_space(c);
    lemma_strip_start(s, drop, 0);
    assert(s.skip(0) =~= s);
    lemma_strip_end(s, drop, s.len() as int);
    assert(s.take(s.len() as int) =~= s);
}

proof fn lemma_piece(pair: (Seq<char>, Seq<char>))
    requires
        is_plain_pair(pair),
    ensures
        piece_pair(equality(pair.0, pair.1)) == Some(pair),
        !equality(pair.0, pair.1).contains(','),
{
    reveal_strlit("=");
    let s = equality(pair.0, pair.1);
    let n = pair.0.len() as int;
    assert forall|j: int| 0 <= j < n implies s[j] != '=' by {
        assert(s[j] == pair.0[j]);
        if s[j] == '=' {
            assert(pair.0.contains('='));
        }
    }
    assert(s[n] == '=');
    lemma_first_of(s, '=', n);
    assert(s.take(n) =~= pair.0);
    assert(s.skip(n + 1) =~= pair.1);
    lemma_plain_trimmed(pair.0);
    lemma_plain_trimmed(pair.1);
    if s.contains(',') {
        let j = choose|j: int| 0 <= j < s.len() && s[j] == ',';
        if j < n {
            assert(pair.0[j] == ',');
        } else if j > n {
            assert(pair.1[j - n - 1] == ',');
        }
        assert(false);
    }
}

proof fn lemma_pieces(pairs: Seq<(Seq<char>, Seq<char>)>)
    requires
        forall|i: int| 0 <= i < pairs.len() ==> is_plain_pair(#[trigger] pairs[i]),
    ensures
        piece_pairs(equalities(pairs)) == pairs,
        forall|i: int|
            0 <= i < pairs.len() ==> !(#[trigger] equalities(pairs)[i]).contains(','),
    decreases pairs.len(),
{
    let all = equalities(pairs);
    if pairs.len() == 0 {
        assert(piece_pairs(all) =~= pairs);
    } else {
        let before = pairs.drop_last();
        lemma_pieces(before);
        assert(all.drop_last() =~= equalities(before));
        lemma_piece(pairs.last());
        assert(all.last() == equality(pairs.last().0, pairs.last().1));
        assert(piece_pairs(all) =~= before.push(pairs.last()));
        assert(before.push(pairs.last()) =~= pairs);
        assert forall|i: int| 0 <= i < pairs.len() implies !(#[trigger] all[i]).contains(',') by {
            if i < before.len() {
                assert(all[i] == equalities(before)[i]);
            }
        }
    }
}

/// A selector that is written as text and read again asks for the same labels: where
/// a workload's selector comes to the equalities of `pairs`, its text exists and reads
/// as `pairs`.
pub proof fn law_selector_round_trip(
    selector: LabelSelector,
    pairs: Seq<(Seq<char>, Seq<char>)>,
)
    requires
        selector_parts(selector) == Ok::<Seq<Seq<char>>, Seq<char>>(equalities(pairs)),
        pairs.len() > 0,
        forall|i: int| 0 <= i < pairs.len() ==> is_plain_pair(#[trigger] pairs[i]),
    ensures
        selector_text(selector) is Ok,
        selector_pairs(selector_text(selector)->Ok_0) == pairs,
{
    lemma_pieces(pairs);
    lemma_split_joined(equalities(pairs));
}

/// A selector is never written as text that admits every pod: where it yields no
/// constraint it is an error.
pub proof fn law_selector_is_never_empty(selector: LabelSelector)
    requires
        selector_parts(selector) == Ok::<Seq<Seq<char>>, Seq<char>>(seq![]),
    ensures
        selector_text(selector) is Err,
{
}

/// The pods that are chosen are ready and selected, each is chosen once, and no other
/// pod is ready and selected.
pub proof fn law_chosen_pods(pods: Seq<Pod>, pairs: Seq<(Seq<char>, Seq<char>)>, n: int)
    requires
        0 <= n <= pods.len() <= usize::MAX,
    ensures
        forall|i: int, j: int|
            0 <= i < j < chosen_pods(pods, pairs, n).len() ==> (#[trigger] chosen_pods(
                pods,
                pairs,
                n,
            )[i]) < (#[trigger] chosen_pods(pods, pairs, n)[j]),
        forall|k: usize| #[trigger]
            chosen_pods(pods, pairs, n).contains(k) <==> k < n && pod_ready(pods[k as int])
                && pod_selected(pods[k as int], pairs),
    decreases n,
{
    if n > 0 {
        law_chosen_pods(pods, pairs, n - 1);
        let before = chosen_pods(pods, pairs, n - 1);
        let after = chosen_pods(pods, pairs, n);
        let last = (n - 1) as usize;
        assert forall|i: int| 0 <= i < before.len() implies #[trigger] before[i] < n - 1 by {
            assert(before.contains(before[i]));
        }
        assert forall|k: usize| #[trigger] after.contains(k) <==> k < n && pod_ready(
            pods[k as int],
        ) && pod_selected(pods[k as int], pairs) by {
            assert(before.contains(k) <==> k < n - 1 && pod_ready(pods[k as int]) && pod_selected(
                pods[k as int],
                pairs,
            ));
            if after != before {
                if before.contains(k) {
                    let i = choose|i: int| 0 <= i < before.len() && before[i] == k;
                    assert(after[i] == k);
                }
                if k == last {
                    assert(after[before.len() as int] == k);
                }
                if after.contains(k) && k != last {
                    let i = choose|i: int| 0 <= i < after.len() && after[i] == k;
                    assert(before[i] == k);
                }
            }
        }
    }
}

// ---------------------------------------------------------------------------
// Knowing the pods of a namespace
// ---------------------------------------------------------------------------

/// A namespace is never at once synced and being started, whatever happens.
pub proof fn law_synced_and_starting_stay_apart(
    cache: CacheView,
    namespace: Seq<char>,
    outcome: SyncOutcome,
)
    requires
        cache.apart(),
    ensures
        cache.asked(namespace).apart(),
        cache.finished(namespace, outcome).apart(),
        cache.ended(namespace).apart(),
{
}

/// Of the tasks that ask for a namespace only the first starts a reflector: until that
/// one has listed the pods or has stopped, every other task waits. Once the pods are
/// listed nobody waits, and after a failure the next task starts another reflector.
pub proof fn law_one_reflector_at_a_time(
    cache: CacheView,
    namespace: Seq<char>,
    outcome: SyncOutcome,
)
    requires
        cache.step(namespace) == EnsureStep::Start,
    ensures
        cache.asked(namespace).step(namespace) == EnsureStep::Wait,
        cache.asked(namespace).asked(namespace) == cache.asked(namespace),
        cache.asked(namespace).finished(namespace, outcome).step(namespace) == (if outcome
            == SyncOutcome::Synced {
            EnsureStep::Ready
        } else {
            EnsureStep::Start
        }),
        cache.asked(namespace).ended(namespace).step(namespace) == EnsureStep::Start,
{
}

/// What happens to one namespace does not change what a task does about another.
pub proof fn law_namespaces_are_independent(
    cache: CacheView,
    namespace: Seq<char>,
    other: Seq<char>,
    outcome: SyncOutcome,
)
    requires
        namespace != other,
    ensures
        cache.asked(namespace).step(other) == cache.step(other),
        cache.finished(namespace, outcome).step(other) == cache.step(other),
        cache.ended(namespace).step(other) == cache.step(other),
{
}

// ---------------------------------------------------------------------------
// Scrapes
// ---------------------------------------------------------------------------

/// A scrape that fails stores nothing.
pub proof fn law_failed_scrape_stores_nothing(
    store: StoreView,
    epa: ExternalPodAutoscaler,
    pod: Pod,
    max_samples: nat,
    fetched: Fetched,
    scraped_at: u64,
)
    ensures
        scraped(store, epa, pod, max_samples, fetched, scraped_at).1 is Some ==> scraped(
            store,
            epa,
            pod,
            max_samples,
            fetched,
            scraped_at,
        ).0 == store,
{
}

/// Whether two stores differ at most in the windows of one pod and one resource.
pub open spec fn same_elsewhere(a: StoreView, b: StoreView, to: Target) -> bool {
    &&& a.cache == b.cache
    &&& a.configs == b.configs
    &&& a.stats == b.stats
    &&& forall|k: Seq<Seq<char>>| #[trigger]
        b.windows.contains_key(k) && !own_window(k, to) ==> a.windows.contains_key(k)
            && a.windows[k] == b.windows[k]
    &&& forall|k: Seq<Seq<char>>| #[trigger]
        a.windows.contains_key(k) && !own_window(k, to) ==> b.windows.contains_key(k)
}

/// Whether a window is one of a pod and a resource.
pub open spec fn own_window(key: Seq<Seq<char>>, to: Target) -> bool {
    exists|metric: Seq<char>| key == #[trigger] window_key(
        to.namespace,
        to.epa_name,
        metric,
        to.pod_name,
    )
}

proof fn lemma_metrics_stored_elsewhere(
    store: StoreView,
    spec: MetricSpec,
    metrics: Seq<MetricView>,
    to: Target,
)
    ensures
        same_elsewhere(store, metrics_stored(store, spec, metrics, to), to),
    decreases metrics.len(),
{
    if metrics.len() > 0 {
        lemma_metrics_stored_elsewhere(store, spec, metrics.drop_last(), to);
        let key = window_key(to.namespace, to.epa_name, spec.metric_name@, to.pod_name);
        assert(own_window(key, to));
    }
}

proof fn lemma_scrape_stored_elsewhere(
    store: StoreView,
    specs: Seq<MetricSpec>,
    metrics: Seq<MetricView>,
    to: Target,
)
    ensures
        same_elsewhere(store, scrape_stored(store, specs, metrics, to), to),
    decreases specs.len(),
{
    if specs.len() > 0 {
        lemma_scrape_stored_elsewhere(store, specs.drop_last(), metrics, to);
        lemma_metrics_stored_elsewhere(
            scrape_stored(store, specs.drop_last(), metrics, to),
            specs.last(),
            metrics,
            to,
        );
    }
}

/// A scrape touches only the windows of its pod and its resource.
pub proof fn law_scrape_leaves_others(
    store: StoreView,
    epa: ExternalPodAutoscaler,
    pod: Pod,
    max_samples: nat,
    fetched: Fetched,
    scraped_at: u64,
)
    requires
        plan_of(epa, pod) is Ok,
    ensures
        ({
            let plan = plan_of(epa, pod)->Ok_0;
            same_elsewhere(
                store,
                scraped(store, epa, pod, max_samples, fetched, scraped_at).0,
                Target {
                    namespace: plan.namespace,
                    epa_name: plan.epa_name,
                    pod_name: plan.pod_name,
                    max_samples,
                    scraped_at,
                },
            )
        }),
{
    let plan = plan_of(epa, pod)->Ok_0;
    let to = Target {
        namespace: plan.namespace,
        epa_name: plan.epa_name,
        pod_name: plan.pod_name,
        max_samples,
        scraped_at,
    };
    if let Ok(text) = answer_of(fetched, plan.pod_name) {
        if let Progress::Reading { metrics, .. } = read_text(text) {
            lemma_scrape_stored_elsewhere(store, epa.spec.metrics@, metrics, to);
        }
    }
}

// ---------------------------------------------------------------------------
// The schedule
// ---------------------------------------------------------------------------

/// Between two scrapes of a resource lies its interval: once a round was started, the
/// resource waits until the interval is over and then no longer. A resource whose
/// interval was changed does not wait, and other resources are not concerned.
pub proof fn law_scraped_once_per_interval(
    before: ScheduleView,
    after: ScheduleView,
    key: Seq<char>,
    other: Seq<char>,
    interval: u128,
    changed: u128,
    now: u64,
    later: u64,
)
    requires
        now + interval <= u128::MAX,
        after.next_scrape == before.next_scrape.insert(key, ((now + interval) as u128, interval)),
        other != key,
        changed != interval,
    ensures
        after.waits(key, interval as nat, later) == (later < now + interval),
        !after.waits(key, changed as nat, later),
        after.waits(other, interval as nat, later) == before.waits(other, interval as nat, later),
{
}

/// Once a resource was registered, the store knows how each of its metrics is
/// aggregated, before anything was scraped. Of two metrics of the same name the later
/// counts.
pub proof fn law_configs_are_known(
    store: StoreView,
    namespace: Seq<char>,
    name: Seq<char>,
    epa: ExternalPodAutoscaler,
    evaluation_period: u128,
    i: int,
    n: int,
)
    requires
        0 <= i < n <= epa.spec.metrics@.len(),
        config_of(epa, epa.spec.metrics@[i], evaluation_period) is Ok,
        forall|j: int|
            i < j < n ==> (#[trigger] epa.spec.metrics@[j]).metric_name@
                != epa.spec.metrics@[i].metric_name@,
    ensures
        configured(store, namespace, name, epa, evaluation_period, n).config(
            metric_key(namespace, name, epa.spec.metrics@[i].metric_name@),
        ) == config_of(epa, epa.spec.metrics@[i], evaluation_period)->Ok_0,
    decreases n,
{
    if n - 1 > i {
        law_configs_are_known(store, namespace, name, epa, evaluation_period, i, n - 1);
        let a = metric_key(namespace, name, epa.spec.metrics@[i].metric_name@);
        let b = metric_key(namespace, name, epa.spec.metrics@[n - 1].metric_name@);
        assert(a[2] != b[2]);
    }
}

/// A window holds at least two samples, so that a rate can be taken, and all samples
/// of one evaluation period.
pub proof fn law_samples_cover_the_period(evaluation_period: nat, interval: nat)
    ensures
        samples_kept(evaluation_period, interval) >= 2,
        whole_seconds(interval) >= 1 ==> (samples_kept(evaluation_period, interval) - 1)
            * whole_seconds(interval) >= whole_seconds(evaluation_period),
{
    let p = whole_seconds(evaluation_period);
    let s = whole_seconds(interval);
    if s >= 1 {
        assert(p == (p / s) * s + p % s) by {
            vstd::arithmetic::div_mod::lemma_fundamental_div_mod(p as int, s as int);
            vstd::arithmetic::mul::lemma_mul_is_commutative(s as int, (p / s) as int);
        }
        assert(p % s < s) by {
            vstd::arithmetic::div_mod::lemma_mod_bound(p as int, s as int);
        }
        let n = intervals_in(evaluation_period, interval);
        let q = p / s;
        assert((q + 1) * s == q * s + s) by (nonlinear_arith);
        assert(n * s >= p);
        assert((samples_kept(evaluation_period, interval) - 1) * s >= n * s) by (nonlinear_arith)
            requires
                samples_kept(evaluation_period, interval) - 1 >= n,
                s >= 1,
        ;
    }
}

// ---------------------------------------------------------------------------
// Pods
// ---------------------------------------------------------------------------

/// A pod that runs, has an address and is not being deleted is ready if and only if its
/// condition `Ready` is `True`, wherever that stands among its conditions; of several the
/// first counts.
pub proof fn law_ready_condition_decides(pod: &Pod, i: int, r: bool)
    requires
        call_ensures(is_pod_ready, (pod,), r),
        pod.metadata.deletion_timestamp is None,
        pod.status is Some,
        pod.status->0.phase is Some && pod.status->0.phase->0@ == "Running"@,
        pod.status->0.pod_ip is Some,
        pod.status->0.conditions is Some,
        0 <= i < pod.status->0.conditions->0@.len(),
        pod.status->0.conditions->0@[i].type_@ == "Ready"@,
        forall|j: int|
            0 <= j < i ==> (#[trigger] pod.status->0.conditions->0@[j]).type_@ != "Ready"@,
    ensures
        r == (pod.status->0.conditions->0@[i].status@ == "True"@),
{
    let conditions = pod.status->0.conditions->0@;
    if conditions[i].status@ == "True"@ {
        assert(conditions[i].type_@ == "Ready"@);
    }
}

/// A pod that is being deleted, does not run, has no address, or has no condition `Ready`
/// is not ready.
pub proof fn law_pods_that_are_not_ready(pod: &Pod, r: bool)
    requires
        call_ensures(is_pod_ready, (pod,), r),
    ensures
        pod.metadata.deletion_timestamp is Some ==> !r,
        pod.status is None ==> !r,
        pod.status matches Some(status) ==> {
            &&& status.pod_ip is None ==> !r
            &&& status.phase is None ==> !r
            &&& status.phase matches Some(phase) ==> (phase@ != "Running"@ ==> !r)
            &&& status.conditions is None ==> !r
            &&& status.conditions matches Some(conditions) ==> ((forall|j: int|
                0 <= j < conditions@.len() ==> (#[trigger] conditions@[j]).type_@ != "Ready"@)
                ==> !r)
        },
{
}

/// Pods that differ at most in conditions of other types than `Ready` are ready alike.
pub proof fn law_other_conditions_make_no_difference(
    a: &Pod,
    b: &Pod,
    front: Seq<PodCondition>,
    ready: bool,
    same: bool,
)
    requires
        call_ensures(is_pod_ready, (a,), ready),
        call_ensures(is_pod_ready, (b,), same),
        a.metadata.deletion_timestamp == b.metadata.deletion_timestamp,
        a.status is Some && b.status is Some,
        a.status->0.phase == b.status->0.phase,
        a.status->0.pod_ip == b.status->0.pod_ip,
        a.status->0.conditions is Some && b.status->0.conditions is Some,
        b.status->0.conditions->0@ == front + a.status->0.conditions->0@,
        forall|j: int| 0 <= j < front.len() ==> (#[trigger] front[j]).type_@ != "Ready"@,
    ensures
        ready == same,
{
    let x = a.status->0.conditions->0@;
    let y = b.status->0.conditions->0@;
    let n = front.len() as int;
    if first_condition_is(x, "Ready"@, "True"@) {
        let i = choose|i: int|
            0 <= i < x.len() && (#[trigger] x[i]).type_@ == "Ready"@ && x[i].status@ == "True"@
                && forall|j: int| 0 <= j < i ==> (#[trigger] x[j]).type_@ != "Ready"@;
        assert(y[n + i] == x[i]);
        assert forall|j: int| 0 <= j < n + i implies (#[trigger] y[j]).type_@ != "Ready"@ by {
            if j < n {
                assert(y[j] == front[j]);
            } else {
                assert(y[j] == x[j - n]);
            }
        }
    }
    if first_condition_is(y, "Ready"@, "True"@) {
        let i = choose|i: int|
            0 <= i < y.len() && (#[trigger] y[i]).type_@ == "Ready"@ && y[i].status@ == "True"@
                && forall|j: int| 0 <= j < i ==> (#[trigger] y[j]).type_@ != "Ready"@;
        assert(i >= n) by {
            if i < n {
                assert(y[i] == front[i]);
            }
        }
        assert(x[i - n] == y[i]);
        assert forall|j: int| 0 <= j < i - n implies (#[trigger] x[j]).type_@ != "Ready"@ by {
            assert(x[j] == y[n + j]);
        }
    }
}

/// A pod is selected by a list of labels exactly where it has each of them with its value;
/// one more label in the list selects no more pods.
pub proof fn law_pod_has_each_label(pod: &Pod, pairs: &[(String, String)], r: bool)
    requires
        call_ensures(pod_matches_selector, (pod, pairs), r),
    ensures
        pairs@.len() == 0 ==> r,
        pairs@.len() > 0 && pod.metadata.labels is None ==> !r,
        pod.metadata.labels matches Some(labels) ==> r == (forall|i: int|
            0 <= i < pairs@.len() ==> labels@.contains_key((#[trigger] pairs@[i]).0@)
                && labels@[pairs@[i].0@] == pairs@[i].1@),
{
    let views = pair_views(pairs@);
    assert(views.len() == pairs@.len());
    assert forall|i: int| 0 <= i < pairs@.len() implies #[trigger] views[i] == (
        pairs@[i].0@,
        pairs@[i].1@,
    ) by {}
    if let Some(labels) = pod.metadata.labels {
        if r {
            assert forall|i: int| 0 <= i < pairs@.len() implies labels@.contains_key(
                (#[trigger] pairs@[i]).0@,
            ) && labels@[pairs@[i].0@] == pairs@[i].1@ by {
                assert(views[i] == (pairs@[i].0@, pairs@[i].1@));
            }
        }
        if forall|i: int|
            0 <= i < pairs@.len() ==> labels@.contains_key((#[trigger] pairs@[i]).0@)
                && labels@[pairs@[i].0@] == pairs@[i].1@ {
            assert forall|i: int| 0 <= i < views.len() implies labels@.contains_key(
                (#[trigger] views[i]).0,
            ) && labels@[views[i].0] == views[i].1 by {
                assert(views[i] == (pairs@[i].0@, pairs@[i].1@));
            }
        }
    }
}

/// One more equality behind a comma is one more label that a selector asks for. What
/// holds no `=` asks for nothing, and neither does an equality without a key.
pub proof fn law_selector_is_read(
    text: &str,
    more: &str,
    piece: Seq<char>,
    key: Seq<char>,
    value: Seq<char>,
    a: Vec<(String, String)>,
    b: Vec<(String, String)>,
)
    requires
        call_ensures(parse_label_selector, (text,), a),
        call_ensures(parse_label_selector, (more,), b),
        more@ == text@.push(',') + piece,
        !piece.contains(','),
    ensures
        piece == key.push('=') + value && is_plain_pair((key, value)) ==> {
            &&& b@.len() == a@.len() + 1
            &&& forall|i: int|
                0 <= i < a@.len() ==> (#[trigger] b@[i]).0@ == a@[i].0@ && b@[i].1@ == a@[i].1@
            &&& b@.last().0@ == key
            &&& b@.last().1@ == value
        },
        !piece.contains('=') || piece == seq!['='] + value ==> {
            &&& b@.len() == a@.len()
            &&& forall|i: int|
                0 <= i < a@.len() ==> (#[trigger] b@[i]).0@ == a@[i].0@ && b@[i].1@ == a@[i].1@
        },
{
    reveal_strlit("=");
    lemma_split_more(text@, ',', piece);
    let before = split_on(text@, ',');
    assert(before.push(piece).drop_last() =~= before);
    let x = pair_views(a@);
    let y = pair_views(b@);
    assert(x.len() == a@.len());
    assert(y.len() == b@.len());
    if piece == key.push('=') + value && is_plain_pair((key, value)) {
        lemma_piece((key, value));
        assert(piece =~= equality(key, value));
        assert(y == x.push((key, value)));
        assert(y[a@.len() as int] == (b@[a@.len() as int].0@, b@[a@.len() as int].1@));
    }
    if !piece.contains('=') {
        assert forall|j: int| 0 <= j < piece.len() implies piece[j] != '=' by {
            if piece[j] == '=' {
                assert(piece.contains('='));
            }
        }
        lemma_first_of(piece, '=', piece.len() as int);
    }
    if piece == seq!['='] + value {
        assert(piece[0] == '=');
        lemma_first_of(piece, '=', 0);
        let none = Seq::<char>::empty();
        assert(piece.take(0) =~= none);
        lemma_plain_trimmed(none);
    }
    assert forall|i: int| 0 <= i < a@.len() && y.len() >= x.len() implies (
    #[trigger] b@[i]).0@ == a@[i].0@ && b@[i].1@ == a@[i].1@ by {
        assert(x[i] == (a@[i].0@, a@[i].1@));
        assert(y[i] == (b@[i].0@, b@[i].1@));
        assert(y[i] == x[i]);
    }
}

/// The pods that are scraped are those that are ready and that the selector selects, each
/// once and in their order.
pub proof fn law_scraped_pods(
    pods: &Vec<Pod>,
    selector: &str,
    pairs: Vec<(String, String)>,
    slice: &[(String, String)],
    r: Vec<usize>,
    k: usize,
    ready: bool,
    selected: bool,
)
    requires
        call_ensures(choose_pods, (pods, selector), r),
        call_ensures(parse_label_selector, (selector,), pairs),
        slice@ == pairs@,
        k < pods@.len() <= usize::MAX,
        call_ensures(is_pod_ready, (&pods@[k as int],), ready),
        call_ensures(pod_matches_selector, (&pods@[k as int], slice), selected),
    ensures
        r@.contains(k) == (ready && selected),
        forall|i: int, j: int| 0 <= i < j < r@.len() ==> #[trigger] r@[i] < #[trigger] r@[j],
        forall|i: int| 0 <= i < r@.len() ==> #[trigger] r@[i] < pods@.len(),
{
    let wanted = selector_pairs(selector@);
    law_chosen_pods(pods@, wanted, pods@.len() as int);
    assert forall|i: int| 0 <= i < r@.len() implies #[trigger] r@[i] < pods@.len() by {
        assert(r@.contains(r@[i]));
    }
}

/// Pods are given only for a namespace that is synced: then they are those that are
/// chosen, else it is an error.
pub proof fn law_pods_of_a_synced_namespace(
    cache: &PodCache,
    namespace: &str,
    pods: &Vec<Pod>,
    selector: &str,
    synced: bool,
    chosen: Vec<usize>,
    r: Result<Vec<usize>, String>,
)
    requires
        call_ensures(PodCache::is_synced, (cache, namespace), synced),
        call_ensures(choose_pods, (pods, selector), chosen),
        call_ensures(PodCache::get_ready_pods, (cache, namespace, pods, selector), r),
    ensures
        r is Ok == synced,
        r matches Ok(places) ==> places@ == chosen@,
{
}

/// A task that asks for a namespace goes on where it is synced, waits where another task
/// starts its reflector, and else starts one; only then anything changes.
pub proof fn law_asking_for_a_namespace(cache: &mut PodCache, namespace: &str, r: EnsureStep)
    requires
        call_ensures(PodCache::ensure_namespace, (cache, namespace), r),
    ensures
        final(cache)@.synced == old(cache)@.synced,
        old(cache)@.synced.contains(namespace@) ==> r == EnsureStep::Ready
            && final(cache)@.starting == old(cache)@.starting,
        !old(cache)@.synced.contains(namespace@) && old(cache)@.starting.contains(namespace@) ==> r
            == EnsureStep::Wait && final(cache)@.starting == old(cache)@.starting,
        !old(cache)@.synced.contains(namespace@) && !old(cache)@.starting.contains(namespace@)
            ==> r == EnsureStep::Start && final(cache)@.starting == old(cache)@.starting.insert(
            namespace@,
        ),
{
}

/// A reflector that has listed the pods is published and its namespace is synced; any
/// other is aborted. Either way its start is over. Once a reflector has stopped, its
/// namespace is neither synced nor being started.
pub proof fn law_end_of_a_start(
    cache: &mut PodCache,
    stopped: &mut PodCache,
    namespace: &str,
    outcome: SyncOutcome,
    r: SyncStep,
)
    requires
        call_ensures(PodCache::sync_finished, (cache, namespace, outcome), r),
        call_ensures(PodCache::stream_ended, (stopped, namespace), ()),
    ensures
        r == SyncStep::Publish <==> outcome == SyncOutcome::Synced,
        final(cache)@.starting == old(cache)@.starting.remove(namespace@),
        outcome == SyncOutcome::Synced ==> final(cache)@.synced == old(cache)@.synced.insert(
            namespace@,
        ),
        outcome != SyncOutcome::Synced ==> final(cache)@.synced == old(cache)@.synced,
        final(stopped)@.synced == old(stopped)@.synced.remove(namespace@),
        final(stopped)@.starting == old(stopped)@.starting.remove(namespace@),
{
}

/// A task that waits gives up once it has waited too long, goes on once its namespace is
/// synced, and else waits on.
pub proof fn law_waiting_for_a_namespace(
    cache: &PodCache,
    namespace: &str,
    timed_out: bool,
    r: EnsureStep,
)
    requires
        call_ensures(PodCache::wait_step, (cache, namespace, timed_out), r),
    ensures
        timed_out <==> r == EnsureStep::GiveUp,
        r == EnsureStep::Ready <==> !timed_out && cache@.synced.contains(namespace@),
        r != EnsureStep::Start,
{
}

// ---------------------------------------------------------------------------
// Selectors of samples
// ---------------------------------------------------------------------------

/// A selector admits labels exactly where its labels and its requirements, each taken
/// alone, admit them.
pub proof fn law_selector_is_a_conjunction(
    labels: &Labels,
    both: &resource::LabelSelector,
    only_labels: &resource::LabelSelector,
    only_requirements: &resource::LabelSelector,
    r: bool,
    a: bool,
    b: bool,
)
    requires
        call_ensures(matches_label_selector, (labels, both), r),
        call_ensures(matches_label_selector, (labels, only_labels), a),
        call_ensures(matches_label_selector, (labels, only_requirements), b),
        only_labels.match_labels == both.match_labels,
        only_labels.match_expressions is None,
        only_requirements.match_labels is None,
        only_requirements.match_expressions == both.match_expressions,
    ensures
        r == (a && b),
{
}

/// A selector's labels admit exactly those that have each of them with its value, and a
/// selector that asks for nothing admits all.
pub proof fn law_selector_of_labels(
    labels: &Labels,
    selector: &resource::LabelSelector,
    r: bool,
)
    requires
        call_ensures(matches_label_selector, (labels, selector), r),
        selector.match_expressions is None,
    ensures
        selector.match_labels is None ==> r,
        selector.match_labels matches Some(wanted) ==> r == (forall|k: Seq<char>| #[trigger]
            wanted@.contains_key(k) ==> labels@.contains_key(k) && labels@[k] == wanted@[k]),
{
}

/// A requirement more is met as well by the labels that a selector admits: they have the
/// label with one of the values, or not with any of them, or they have it at all, or they
/// do not.
pub proof fn law_selector_with_one_requirement_more(
    labels: &Labels,
    selector: &resource::LabelSelector,
    more: &resource::LabelSelector,
    requirement: resource::LabelSelectorRequirement,
    r: bool,
    s: bool,
)
    requires
        call_ensures(matches_label_selector, (labels, selector), r),
        call_ensures(matches_label_selector, (labels, more), s),
        more.match_labels == selector.match_labels,
        more.match_expressions matches Some(all) && all@.len() > 0 && all@.last() == requirement
            && match selector.match_expressions {
            Some(fewer) => fewer@ == all@.drop_last(),
            None => all@.len() == 1,
        },
    ensures
        s == (r && {
            let held = labels@.contains_key(requirement.key@);
            let named = requirement.values matches Some(values) && exists|j: int|
                0 <= j < values@.len() && (#[trigger] values@[j])@ == labels@[requirement.key@];
            match requirement.operator {
                LabelSelectorOperator::In => requirement.values is None || (held && named),
                LabelSelectorOperator::NotIn => requirement.values is None || !(held && named),
                LabelSelectorOperator::Exists => held,
                LabelSelectorOperator::DoesNotExist => !held,
            }
        }),
{
    let all = more.match_expressions->0@;
    let last = all.len() - 1;
    assert(all[last] == requirement);
    if let Some(values) = requirement.values {
        let value = labels@[requirement.key@];
        let texts = views(values@);
        assert(texts.len() == values@.len());
        if texts.contains(value) {
            let j = choose|j: int| 0 <= j < texts.len() && texts[j] == value;
            assert(values@[j]@ == value);
        }
        if exists|j: int| 0 <= j < values@.len() && (#[trigger] values@[j])@ == value {
            let j = choose|j: int| 0 <= j < values@.len() && (#[trigger] values@[j])@ == value;
            assert(texts[j] == value);
        }
    }
    if let Some(fewer) = selector.match_expressions {
        assert forall|i: int| 0 <= i < fewer@.len() implies #[trigger] fewer@[i] == all[i] by {}
        if s {
            assert(meets(labels@, all[last]));
            assert forall|i: int| 0 <= i < fewer@.len() implies meets(
                labels@,
                #[trigger] fewer@[i],
            ) by {
                assert(meets(labels@, all[i]));
            }
        }
        if r && meets(labels@, requirement) {
            assert forall|i: int| 0 <= i < all.len() implies meets(labels@, #[trigger] all[i]) by {
                if i < last {
                    assert(fewer@[i] == all[i]);
                }
            }
        }
    } else {
        if s {
            assert(meets(labels@, all[last]));
        }
    }
}

} // verus!
