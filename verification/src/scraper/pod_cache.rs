//! Which pods of a namespace are scraped, and how the pods of a namespace come to be
//! known.
//!
//! The pods of a namespace are watched by one reflector, which is started when they
//! are first asked for. A namespace is synced once its reflector has listed the pods.

use crate::k8s::{Pod, PodCondition, PodStatus};
use crate::names::NameSet;
use crate::text::{cut, same, split, split_on, split_once, trim, trimmed, views};
use vstd::prelude::*;
use vstd::string::StrSliceExecFns;
use vstd::string::StringExecFns;

verus! {

/// How long the first listing of a namespace's pods is waited for, in nanoseconds.
pub const SYNC_TIMEOUT: u128 = 30_000_000_000;

// ---------------------------------------------------------------------------
// Selecting pods
// ---------------------------------------------------------------------------

/// A list of pairs of strings, by contents.
pub open spec fn pair_views(pairs: Seq<(String, String)>) -> Seq<(Seq<char>, Seq<char>)> {
    pairs.map_values(|p: (String, String)| (p.0@, p.1@))
}

/// The equality that a piece of a selector writes, where it holds `=` and a key.
pub open spec fn piece_pair(piece: Seq<char>) -> Option<(Seq<char>, Seq<char>)> {
    match cut(piece, '=') {
        Some((key, value)) => if trimmed(key).len() == 0 {
            None
        } else {
            Some((trimmed(key), trimmed(value)))
        },
        None => None,
    }
}

/// The equalities that pieces of a selector write.
pub open spec fn piece_pairs(pieces: Seq<Seq<char>>) -> Seq<(Seq<char>, Seq<char>)>
    decreases pieces.len(),
{
    if pieces.len() == 0 {
        seq![]
    } else {
        let before = piece_pairs(pieces.drop_last());
        match piece_pair(pieces.last()) {
            Some(pair) => before.push(pair),
            None => before,
        }
    }
}

/// The equalities that a selector such as `app=worker,tier=backend` writes.
pub open spec fn selector_pairs(selector: Seq<char>) -> Seq<(Seq<char>, Seq<char>)> {
    piece_pairs(split_on(selector, ','))
}

/// Parses `"key=value,key2=value2"` into a `Vec<(String, String)>`.
///
/// Entries that do not contain `=` are passed over, and those without a key.
pub fn parse_label_selector(selector: &str) -> (r: Vec<(String, String)>)
    ensures
        pair_views(r@) == selector_pairs(selector@),
{
    let pieces = split(selector, ',');
    let ghost all = views(pieces@);
    let mut r: Vec<(String, String)> = Vec::new();
    let mut i: usize = 0;
    assert(all.take(0) =~= seq![]);
    assert(pair_views(r@) =~= seq![]);
    while i < pieces.len()
        invariant
            i <= pieces@.len(),
            all == views(pieces@),
            pair_views(r@) == piece_pairs(all.take(i as int)),
        decreases pieces.len() - i,
    {
        proof {
            assert(all.take(i + 1).drop_last() =~= all.take(i as int));
            assert(all.take(i + 1).last() == pieces@[i as int]@);
        }
        if let Some((key, value)) = split_once(pieces[i].as_str(), '=') {
            let key = trim(key);
            if key.unicode_len() > 0 {
                let ghost before = r@;
                r.push((key.to_owned(), trim(value).to_owned()));
                assert(pair_views(r@) =~= pair_views(before).push(
                    piece_pair(pieces@[i as int]@)->0,
                ));
            }
        }
        i += 1;
    }
    assert(all.take(i as int) =~= all);
    r
}

/// Whether the first condition of the given type has the given status.
pub open spec fn first_condition_is(
    conditions: Seq<PodCondition>,
    type_: Seq<char>,
    status: Seq<char>,
) -> bool {
    exists|i: int|
        0 <= i < conditions.len() && (#[trigger] conditions[i]).type_@ == type_
            && conditions[i].status@ == status && forall|j: int|
            0 <= j < i ==> (#[trigger] conditions[j]).type_@ != type_
}

/// Whether a pod's status is that of a pod that can be scraped.
pub open spec fn status_ready(status: PodStatus) -> bool {
    &&& status.phase matches Some(phase) && phase@ == "Running"@
    &&& status.pod_ip is Some
    &&& status.conditions matches Some(conditions) && first_condition_is(
        conditions@,
        "Ready"@,
        "True"@,
    )
}

/// Whether a pod runs, has an address, is ready and is not being deleted.
pub open spec fn pod_ready(pod: Pod) -> bool {
    &&& pod.metadata.deletion_timestamp is None
    &&& pod.status matches Some(status) && status_ready(status)
}

fn ready_condition(conditions: &Vec<PodCondition>) -> (r: bool)
    ensures
        r == first_condition_is(conditions@, "Ready"@, "True"@),
{
    let mut i: usize = 0;
    while i < conditions.len()
        invariant
            i <= conditions@.len(),
            forall|j: int| 0 <= j < i ==> (#[trigger] conditions@[j]).type_@ != "Ready"@,
        decreases conditions.len() - i,
    {
        let condition = &conditions[i];
        if same(condition.type_.as_str(), "Ready") {
            let r = same(condition.status.as_str(), "True");
            assert(conditions@[i as int].type_@ == "Ready"@);
            return r;
        }
        i += 1;
    }
    false
}

/// Returns `true` when the pod is in the `Running` phase, has a pod IP, its `Ready`
/// condition is `True`, and it is not being deleted.
pub fn is_pod_ready(pod: &Pod) -> (r: bool)
    ensures
        r == pod_ready(*pod),
{
    if pod.metadata.deletion_timestamp.is_some() {
        return false;
    }
    match &pod.status {
        Some(status) => {
            let running = match &status.phase {
                Some(phase) => same(phase.as_str(), "Running"),
                None => false,
            };
            if !running || status.pod_ip.is_none() {
                return false;
            }
            match &status.conditions {
                Some(conditions) => ready_condition(conditions),
                None => false,
            }
        },
        None => false,
    }
}

/// Whether labels have all the values that a list of pairs gives.
pub open spec fn has_pairs(
    labels: Map<Seq<char>, Seq<char>>,
    pairs: Seq<(Seq<char>, Seq<char>)>,
) -> bool {
    forall|i: int|
        0 <= i < pairs.len() ==> labels.contains_key((#[trigger] pairs[i]).0) && labels[pairs[i].0]
            == pairs[i].1
}

/// Whether a pod has the labels that a selector asks for.
pub open spec fn pod_selected(pod: Pod, pairs: Seq<(Seq<char>, Seq<char>)>) -> bool {
    pairs.len() == 0 || (pod.metadata.labels matches Some(labels) && has_pairs(labels@, pairs))
}

/// Returns `true` when the pod's labels contain every `(key, value)` pair in
/// `selector_pairs`.
pub fn pod_matches_selector(pod: &Pod, selector_pairs: &[(String, String)]) -> (r: bool)
    ensures
        r == pod_selected(*pod, pair_views(selector_pairs@)),
{
    let ghost pairs = pair_views(selector_pairs@);
    assert(pairs.len() == selector_pairs@.len());
    if selector_pairs.len() == 0 {
        return true;
    }
    match &pod.metadata.labels {
        Some(labels) => {
            let mut i: usize = 0;
            while i < selector_pairs.len()
                invariant
                    i <= selector_pairs@.len(),
                    pairs == pair_views(selector_pairs@),
                    pairs.len() > 0,
                    pod.metadata.labels == Some(*labels),
                    forall|k: int|
                        0 <= k < i ==> labels@.contains_key((#[trigger] pairs[k]).0)
                            && labels@[pairs[k].0] == pairs[k].1,
                decreases selector_pairs@.len() - i,
            {
                let pair = &selector_pairs[i];
                assert(pairs[i as int] == (pair.0@, pair.1@));
                if !labels.has(pair.0.as_str(), pair.1.as_str()) {
                    assert(!has_pairs(labels@, pairs));
                    return false;
                }
                i += 1;
            }
            true
        },
        None => false,
    }
}

/// The places of the pods among the first `n` that can be scraped and are selected, in
/// order.
pub open spec fn chosen_pods(
    pods: Seq<Pod>,
    pairs: Seq<(Seq<char>, Seq<char>)>,
    n: int,
) -> Seq<usize>
    decreases n,
{
    if n <= 0 {
        seq![]
    } else {
        let before = chosen_pods(pods, pairs, n - 1);
        if pod_ready(pods[n - 1]) && pod_selected(pods[n - 1], pairs) {
            before.push((n - 1) as usize)
        } else {
            before
        }
    }
}

/// The places of the pods that can be scraped and that a selector selects, in order.
pub fn choose_pods(pods: &Vec<Pod>, label_selector: &str) -> (r: Vec<usize>)
    ensures
        r@ == chosen_pods(pods@, selector_pairs(label_selector@), pods@.len() as int),
{
    let pairs = parse_label_selector(label_selector);
    let ghost wanted = selector_pairs(label_selector@);
    let mut r: Vec<usize> = Vec::new();
    let mut i: usize = 0;
    while i < pods.len()
        invariant
            i <= pods@.len(),
            wanted == pair_views(pairs@),
            r@ == chosen_pods(pods@, wanted, i as int),
        decreases pods.len() - i,
    {
        if is_pod_ready(&pods[i]) && pod_matches_selector(&pods[i], pairs.as_slice()) {
            r.push(i);
        }
        i += 1;
    }
    r
}

// ---------------------------------------------------------------------------
// Knowing the pods of a namespace
// ---------------------------------------------------------------------------

/// What is to be done so that the pods of a namespace are known.
#[derive(Debug, Clone, Copy, PartialEq, Eq, Structural)]
pub enum EnsureStep {
    /// The namespace is synced.
    Ready,
    /// Another task is starting the reflector: wait for it.
    Wait,
    /// Start the reflector.
    Start,
    /// The other task took too long.
    GiveUp,
}

/// How the wait for a reflector's first listing ended.
#[derive(Debug, Clone, Copy, PartialEq, Eq, Structural)]
pub enum SyncOutcome {
    /// The pods were listed.
    Synced,
    /// The reflector stopped before.
    WriterDropped,
    /// It took too long.
    TimedOut,
}

/// What is to be done with a reflector that was started.
#[derive(Debug, Clone, Copy, PartialEq, Eq, Structural)]
pub enum SyncStep {
    /// Publish its store.
    Publish,
    /// Abort it.
    Abort,
}

/// The namespaces whose pods are known, and those for which that is under way.
pub struct CacheView {
    pub synced: Set<Seq<char>>,
    pub starting: Set<Seq<char>>,
}

impl CacheView {
    /// Whether a namespace is not at once synced and being started.
    pub open spec fn apart(self) -> bool {
        self.synced.disjoint(self.starting)
    }

    /// What a task that asks for a namespace is to do.
    pub open spec fn step(self, namespace: Seq<char>) -> EnsureStep {
        if self.synced.contains(namespace) {
            EnsureStep::Ready
        } else if self.starting.contains(namespace) {
            EnsureStep::Wait
        } else {
            EnsureStep::Start
        }
    }

    /// The cache once a namespace was asked for.
    pub open spec fn asked(self, namespace: Seq<char>) -> CacheView {
        if self.step(namespace) == EnsureStep::Start {
            CacheView { starting: self.starting.insert(namespace), ..self }
        } else {
            self
        }
    }

    /// The cache once the wait for the first listing ended.
    pub open spec fn finished(self, namespace: Seq<char>, outcome: SyncOutcome) -> CacheView {
        CacheView {
            synced: if outcome == SyncOutcome::Synced {
                self.synced.insert(namespace)
            } else {
                self.synced
            },
            starting: self.starting.remove(namespace),
        }
    }

    /// The cache once a reflector stopped.
    pub open spec fn ended(self, namespace: Seq<char>) -> CacheView {
        CacheView {
            synced: self.synced.remove(namespace),
            starting: self.starting.remove(namespace),
        }
    }
}

/// The namespaces whose pods are known, and those for which that is under way.
#[derive(Debug)]
pub struct PodCache {
    synced: NameSet,
    starting: NameSet,
}

impl View for PodCache {
    type V = CacheView;

    closed spec fn view(&self) -> CacheView {
        CacheView { synced: self.synced@, starting: self.starting@ }
    }
}

impl PodCache {
    /// No namespace is known.
    pub fn new() -> (r: PodCache)
        ensures
            r@.synced == Set::<Seq<char>>::empty(),
            r@.starting == Set::<Seq<char>>::empty(),
    {
        PodCache { synced: NameSet::new(), starting: NameSet::new() }
    }

    /// Whether the pods of a namespace are known.
    pub fn is_synced(&self, namespace: &str) -> (r: bool)
        ensures
            r == self@.synced.contains(namespace@),
    {
        self.synced.contains(namespace)
    }

    /// Asks for the pods of a namespace. Of several tasks that ask before the
    /// namespace is synced, the first starts the reflector and the others wait.
    pub fn ensure_namespace(&mut self, namespace: &str) -> (r: EnsureStep)
        ensures
            r == old(self)@.step(namespace@),
            final(self)@ == old(self)@.asked(namespace@),
    {
        if self.synced.contains(namespace) {
            return EnsureStep::Ready;
        }
        if self.starting.insert(namespace.to_owned()) {
            EnsureStep::Start
        } else {
            assert(old(self)@.starting.insert(namespace@) =~= old(self)@.starting);
            EnsureStep::Wait
        }
    }

    /// What a task that waits does once it was woken, or once it has waited too long.
    /// It may have been woken for another namespace.
    pub fn wait_step(&self, namespace: &str, timed_out: bool) -> (r: EnsureStep)
        ensures
            r == (if timed_out {
                EnsureStep::GiveUp
            } else if self@.synced.contains(namespace@) {
                EnsureStep::Ready
            } else {
                EnsureStep::Wait
            }),
    {
        if timed_out {
            EnsureStep::GiveUp
        } else if self.synced.contains(namespace) {
            EnsureStep::Ready
        } else {
            EnsureStep::Wait
        }
    }

    /// Takes note of how the first listing went. Only a reflector that listed the pods
    /// is kept; after any other outcome another may be started. Tasks that wait are to
    /// be woken.
    pub fn sync_finished(&mut self, namespace: &str, outcome: SyncOutcome) -> (r: SyncStep)
        ensures
            r == (if outcome == SyncOutcome::Synced {
                SyncStep::Publish
            } else {
                SyncStep::Abort
            }),
            final(self)@ == old(self)@.finished(namespace@, outcome),
    {
        let step = match outcome {
            SyncOutcome::Synced => {
                self.synced.insert(namespace.to_owned());
                SyncStep::Publish
            },
            _ => SyncStep::Abort,
        };
        self.starting.remove(namespace);
        step
    }

    /// Forgets a namespace whose reflector has stopped, so that the next task that
    /// asks for it starts another. Tasks that wait are to be woken.
    pub fn stream_ended(&mut self, namespace: &str)
        ensures
            final(self)@ == old(self)@.ended(namespace@),
    {
        self.synced.remove(namespace);
        self.starting.remove(namespace);
    }

    /// The places of the pods of a namespace that can be scraped and that a selector
    /// selects, in order. It is an error where the pods are not known, so that this is
    /// not taken for a namespace without such pods.
    pub fn get_ready_pods(&self, namespace: &str, pods: &Vec<Pod>, label_selector: &str) -> (r:
        Result<Vec<usize>, String>)
        ensures
            match r {
                Ok(places) => self@.synced.contains(namespace@) && places@ == chosen_pods(
                    pods@,
                    selector_pairs(label_selector@),
                    pods@.len() as int,
                ),
                Err(m) => !self@.synced.contains(namespace@) && m@
                    == "Pod reflector for namespace '"@ + namespace@
                    + "' is not ready; will retry next scrape"@,
            },
    {
        if self.synced.contains(namespace) {
            Ok(choose_pods(pods, label_selector))
        } else {
            let mut m = "Pod reflector for namespace '".to_owned();
            m.append(namespace);
            m.append("' is not ready; will retry next scrape");
            Err(m)
        }
    }
}

} // verus!
