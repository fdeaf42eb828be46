//! Tables of records, held in concurrent maps.

use crate::names::NameSet;
use crate::store::types::{CachedAggregation, MetricConfig, ScrapeStats};
use crate::store::window::{MetricWindow, WindowView};
use crate::text::{same, views};
use dashmap::DashMap;
use vstd::prelude::*;

verus! {

/// What a table holds under a key.
#[derive(Debug)]
pub enum Record {
    Window(MetricWindow),
    Aggregation(CachedAggregation),
    Config(MetricConfig),
    Stats(ScrapeStats),
}

/// What a record stands for.
pub enum RecordView {
    Window(WindowView),
    Aggregation(CachedAggregation),
    Config(MetricConfig),
    Stats(ScrapeStats),
}

impl View for Record {
    type V = RecordView;

    open spec fn view(&self) -> RecordView {
        match self {
            Record::Window(w) => RecordView::Window(w@),
            Record::Aggregation(a) => RecordView::Aggregation(*a),
            Record::Config(c) => RecordView::Config(*c),
            Record::Stats(s) => RecordView::Stats(*s),
        }
    }
}

impl Clone for Record {
    fn clone(&self) -> (r: Record)
        ensures
            r@ == self@,
    {
        match self {
            Record::Window(w) => Record::Window(w.clone()),
            Record::Aggregation(a) => Record::Aggregation(*a),
            Record::Config(c) => Record::Config(*c),
            Record::Stats(s) => Record::Stats(*s),
        }
    }
}

/// The concurrent map `dashmap::DashMap`. Nothing is seen of what is inside.
#[verifier::external_type_specification]
#[verifier::external_body]
#[verifier::reject_recursive_types(K)]
#[verifier::reject_recursive_types(V)]
#[verifier::reject_recursive_types(S)]
pub struct ExDashMap<K, V, S>(DashMap<K, V, S>);

/// A table: records by keys that are made of several texts.
pub type Table = DashMap<Vec<String>, Record>;

/// What a table holds.
pub uninterp spec fn entries(table: Table) -> Map<Seq<Seq<char>>, RecordView>;

/// What a table without entries holds.
pub open spec fn no_entries() -> Map<Seq<Seq<char>>, RecordView> {
    Map::empty()
}

/// The contents of a list of keys.
pub open spec fn key_views(keys: Seq<Vec<String>>) -> Seq<Seq<Seq<char>>> {
    keys.map_values(|k: Vec<String>| views(k@))
}

/// Calls `DashMap::new`, which makes a map without entries.
#[verifier::external_body]
pub(crate) fn new_table() -> (table: Table)
    ensures
        entries(table) == no_entries(),
{
    DashMap::new()
}

/// Calls `DashMap::insert`, which puts a value under a key, in place of the one that
/// was there. Two keys are the same where they hold the same texts in the same order.
#[verifier::external_body]
pub(crate) fn put(table: &mut Table, key: Vec<String>, record: Record)
    ensures
        entries(*final(table)) == entries(*old(table)).insert(views(key@), record@),
{
    table.insert(key, record);
}

/// Calls `DashMap::remove`, which takes a key and its value out of the map, where it
/// holds it, and hands them out.
#[verifier::external_body]
pub(crate) fn take(table: &mut Table, key: &Vec<String>) -> (r: Option<Record>)
    ensures
        entries(*final(table)) == entries(*old(table)).remove(views(key@)),
        match r {
            Some(record) => entries(*old(table)).contains_key(views(key@)) && entries(
                *old(table),
            )[views(key@)] == record@,
            None => !entries(*old(table)).contains_key(views(key@)),
        },
{
    table.remove(key).map(|entry| entry.1)
}

/// Calls `DashMap::get`, which finds the value of a key; a copy of it is handed out.
#[verifier::external_body]
pub(crate) fn look_up(table: &Table, key: &Vec<String>) -> (r: Option<Record>)
    ensures
        match r {
            Some(record) => entries(*table).contains_key(views(key@)) && entries(*table)[views(
                key@,
            )] == record@,
            None => !entries(*table).contains_key(views(key@)),
        },
{
    table.get(key).map(|entry| entry.value().clone())
}

/// Calls `DashMap::iter`, which goes through the entries in no particular order, each
/// once; copies of the keys are handed out.
#[verifier::external_body]
pub(crate) fn keys(table: &Table) -> (r: Vec<Vec<String>>)
    ensures
        key_views(r@).no_duplicates(),
        key_views(r@).to_set() == entries(*table).dom(),
{
    table.iter().map(|entry| entry.key().clone()).collect()
}

/// A choice among the entries of a table.
pub enum Pick<'a> {
    /// All of one resource
    OfResource { namespace: &'a str, epa_name: &'a str },
    /// Windows whose newest sample is too old
    Stale { max_age: u128, now: u64 },
    /// Aggregations that may no longer be used
    Expired { now: u64 },
    /// Windows of one resource for pods that are not listed
    Gone { namespace: &'a str, epa_name: &'a str, pods: &'a NameSet },
}

/// Whether a key belongs to a resource.
pub open spec fn belongs(key: Seq<Seq<char>>, namespace: Seq<char>, epa_name: Seq<char>) -> bool {
    key.len() >= 2 && key[0] == namespace && key[1] == epa_name
}

/// Whether a key names a pod that is not of a set.
pub open spec fn pod_gone(key: Seq<Seq<char>>, pods: Set<Seq<char>>) -> bool {
    key.len() == 4 && !pods.contains(key[3])
}

impl<'a> Pick<'a> {
    /// Whether an entry is of the choice.
    pub open spec fn picks(self, key: Seq<Seq<char>>, record: RecordView) -> bool {
        match self {
            Pick::OfResource { namespace, epa_name } => belongs(key, namespace@, epa_name@),
            Pick::Stale { max_age, now } => record matches RecordView::Window(w) && w.stale(
                max_age,
                now,
            ),
            Pick::Expired { now } => record matches RecordView::Aggregation(a) && !a.valid(now),
            Pick::Gone { namespace, epa_name, pods } => record is Window && belongs(
                key,
                namespace@,
                epa_name@,
            ) && pod_gone(key, pods@),
        }
    }

    fn chooses(&self, key: &Vec<String>, record: &Record) -> (r: bool)
        ensures
            r == self.picks(views(key@), record@),
    {
        assert(views(key@).len() == key@.len());
        assert(forall|i: int| 0 <= i < key@.len() ==> #[trigger] views(key@)[i] == key@[i]@);
        match self {
            Pick::OfResource { namespace, epa_name } => key.len() >= 2 && same(
                key[0].as_str(),
                namespace,
            ) && same(key[1].as_str(), epa_name),
            Pick::Stale { max_age, now } => match record {
                Record::Window(w) => match w.newest_sample_age(*now) {
                    Some(age) => age as u128 > *max_age,
                    None => false,
                },
                _ => false,
            },
            Pick::Expired { now } => match record {
                Record::Aggregation(a) => !a.is_valid(*now),
                _ => false,
            },
            Pick::Gone { namespace, epa_name, pods } => match record {
                Record::Window(_) => key.len() == 4 && same(key[0].as_str(), namespace) && same(
                    key[1].as_str(),
                    epa_name,
                ) && !pods.contains(key[3].as_str()),
                _ => false,
            },
        }
    }
}

/// The keys of the entries that are of a choice.
pub open spec fn picked(m: Map<Seq<Seq<char>>, RecordView>, pick: Pick<'_>) -> Set<Seq<Seq<char>>> {
    Set::new(|k: Seq<Seq<char>>| m.contains_key(k) && pick.picks(k, m[k]))
}

fn choose_keys(table: &Table, pick: &Pick<'_>) -> (r: Vec<Vec<String>>)
    ensures
        key_views(r@).no_duplicates(),
        key_views(r@).to_set() == picked(entries(*table), *pick),
{
    let all = keys(table);
    let ghost m = entries(*table);
    let ghost names = key_views(all@);
    let mut r: Vec<Vec<String>> = Vec::new();
    let mut i: usize = 0;
    while i < all.len()
        invariant
            i <= all@.len(),
            m == entries(*table),
            names == key_views(all@),
            names.no_duplicates(),
            names.to_set() == m.dom(),
            key_views(r@).no_duplicates(),
            forall|k: Seq<Seq<char>>| #[trigger]
                key_views(r@).contains(k) == (names.take(i as int).contains(k) && pick.picks(
                    k,
                    m[k],
                )),
        decreases all.len() - i,
    {
        let key = &all[i];
        let ghost k = views(key@);
        let ghost before = r@;
        proof {
            assert(names[i as int] == k);
            assert(names.to_set().contains(k));
            assert(names.take(i + 1) =~= names.take(i as int).push(k));
            lemma_pushed_contains(names.take(i as int), k);
            assert(!names.take(i as int).contains(k)) by {
                if names.take(i as int).contains(k) {
                    let j = choose|j: int|
                        0 <= j < names.take(i as int).len() && names.take(i as int)[j] == k;
                    assert(names[j] == k);
                }
            }
        }
        if let Some(record) = look_up(table, key) {
            if pick.chooses(key, &record) {
                r.push(crate::text::copy_all(key));
                proof {
                    assert(key_views(r@) =~= key_views(before).push(k));
                    lemma_pushed_contains(key_views(before), k);
                    assert(!key_views(before).contains(k));
                    assert(key_views(r@).no_duplicates());
                }
            }
        }
        i += 1;
    }
    proof {
        assert(names.take(i as int) =~= names);
        assert forall|k: Seq<Seq<char>>| key_views(r@).to_set().contains(k) == picked(
            m,
            *pick,
        ).contains(k) by {
            assert(key_views(r@).contains(k) == (names.take(i as int).contains(k) && pick.picks(
                k,
                m[k],
            )));
            assert(names.to_set().contains(k) == m.dom().contains(k));
        }
        assert(key_views(r@).to_set() =~= picked(m, *pick));
    }
    r
}

pub(crate) proof fn lemma_pushed_contains(s: Seq<Seq<Seq<char>>>, x: Seq<Seq<char>>)
    ensures
        forall|y: Seq<Seq<char>>| #[trigger] s.push(x).contains(y) == (s.contains(y) || y == x),
{
    let t = s.push(x);
    assert forall|y: Seq<Seq<char>>| #[trigger] t.contains(y) == (s.contains(y) || y == x) by {
        if s.contains(y) {
            let k = choose|k: int| 0 <= k < s.len() && s[k] == y;
            assert(t[k] == y);
        }
        if t.contains(y) {
            let k = choose|k: int| 0 <= k < t.len() && t[k] == y;
            if k < s.len() {
                assert(s[k] == y);
            }
        }
        assert(t[s.len() as int] == x);
    }
}

/// Takes the entries of a choice out of a table, and counts them.
pub(crate) fn sweep(table: &mut Table, pick: &Pick<'_>) -> (count: usize)
    ensures
        entries(*final(table)) == entries(*old(table)).remove_keys(
            picked(entries(*old(table)), *pick),
        ),
        picked(entries(*old(table)), *pick).finite(),
        count == picked(entries(*old(table)), *pick).len(),
{
    let ghost m = entries(*table);
    let doomed = choose_keys(table, pick);
    let ghost names = key_views(doomed@);
    let mut i: usize = 0;
    assert(m.remove_keys(names.take(0).to_set()) =~= m);
    while i < doomed.len()
        invariant
            i <= doomed@.len(),
            names == key_views(doomed@),
            entries(*table) == m.remove_keys(names.take(i as int).to_set()),
        decreases doomed.len() - i,
    {
        take(table, &doomed[i]);
        proof {
            let k = names[i as int];
            assert(names.take(i + 1) =~= names.take(i as int).push(k));
            lemma_pushed_contains(names.take(i as int), k);
            assert(names.take(i + 1).to_set() =~= names.take(i as int).to_set().insert(k));
            assert(m.remove_keys(names.take(i as int).to_set()).remove(k) =~= m.remove_keys(
                names.take(i + 1).to_set(),
            ));
        }
        i += 1;
    }
    proof {
        assert(names.take(i as int) =~= names);
        names.unique_seq_to_set();
    }
    doomed.len()
}

} // verus!
