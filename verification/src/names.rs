//! Sets and maps of names, in the order in which the names came.

use crate::text::{same, views};
use vstd::prelude::*;

verus! {

/// A set of names.
#[derive(Debug)]
pub struct NameSet {
    items: Vec<String>,
}

impl View for NameSet {
    type V = Set<Seq<char>>;

    closed spec fn view(&self) -> Set<Seq<char>> {
        views(self.items@).to_set()
    }
}

impl NameSet {
    /// The names in the order in which they are held.
    pub closed spec fn listed(&self) -> Seq<Seq<char>> {
        views(self.items@)
    }

    #[verifier::type_invariant]
    spec fn wf(&self) -> bool {
        views(self.items@).no_duplicates()
    }

    /// The empty set.
    pub fn new() -> (r: NameSet)
        ensures
            r@ == Set::<Seq<char>>::empty(),
    {
        let r = NameSet { items: Vec::new() };
        assert(views(r.items@).to_set() =~= Set::<Seq<char>>::empty());
        r
    }

    /// The number of names.
    pub fn len(&self) -> (n: usize)
        ensures
            n == self@.len(),
            self@.finite(),
            n == self.listed().len(),
            self.listed().to_set() == self@,
            self.listed().no_duplicates(),
    {
        proof {
            use_type_invariant(self);
            views(self.items@).unique_seq_to_set();
        }
        self.items.len()
    }

    /// The name at a place.
    pub fn at(&self, i: usize) -> (r: &String)
        requires
            i < self.listed().len(),
        ensures
            r@ == self.listed()[i as int],
            self@.contains(r@),
    {
        assert(self.listed()[i as int] == self.items@[i as int]@);
        &self.items[i]
    }

    /// Whether the set holds a name.
    pub fn contains(&self, name: &str) -> (r: bool)
        ensures
            r == self@.contains(name@),
    {
        crate::text::list_contains(&self.items, name)
    }

    /// Adds a name; whether it was new.
    pub fn insert(&mut self, name: String) -> (added: bool)
        ensures
            final(self)@ == old(self)@.insert(name@),
            added == !old(self)@.contains(name@),
    {
        proof {
            use_type_invariant(&*self);
        }
        if self.contains(name.as_str()) {
            assert(self@ =~= self@.insert(name@));
            return false;
        }
        let ghost before = self.items@;
        let ghost n = name@;
        let mut items: Vec<String> = Vec::new();
        std::mem::swap(&mut items, &mut self.items);
        items.push(name);
        proof {
            assert(views(items@) =~= views(before).push(n));
            assert(views(items@).no_duplicates());
            assert(views(items@).to_set() =~= views(before).to_set().insert(n)) by {
                lemma_push_to_set(views(before), n);
            }
        }
        self.items = items;
        true
    }

    /// Takes a name out; whether it was there.
    pub fn remove(&mut self, name: &str) -> (removed: bool)
        ensures
            final(self)@ == old(self)@.remove(name@),
            removed == old(self)@.contains(name@),
    {
        proof {
            use_type_invariant(&*self);
        }
        let ghost before = self.items@;
        let mut i: usize = 0;
        while i < self.items.len()
            invariant
                i <= self.items@.len(),
                self.items@ == before,
                views(before).no_duplicates(),
                self@ == old(self)@,
                views(before).to_set() == old(self)@,
                forall|k: int| 0 <= k < i ==> (#[trigger] before[k])@ != name@,
            decreases self.items.len() - i,
        {
            if same(self.items[i].as_str(), name) {
                let mut items: Vec<String> = Vec::new();
                std::mem::swap(&mut items, &mut self.items);
                items.remove(i);
                proof {
                    assert(views(items@) =~= views(before).remove(i as int));
                    lemma_remove_to_set(views(before), i as int);
                    assert(views(before)[i as int] == name@);
                    assert(views(before).to_set().contains(name@));
                }
                self.items = items;
                return true;
            }
            i += 1;
        }
        proof {
            assert(!self@.contains(name@)) by {
                if views(before).contains(name@) {
                    let k = choose|k: int|
                        0 <= k < views(before).len() && views(before)[k] == name@;
                    assert(before[k]@ == name@);
                }
            }
            assert(self@ =~= self@.remove(name@));
        }
        false
    }

    /// The names, in the order in which they are held.
    pub fn list(&self) -> (r: Vec<String>)
        ensures
            views(r@) == self.listed(),
            self.listed().to_set() == self@,
            self.listed().no_duplicates(),
    {
        proof {
            use_type_invariant(self);
        }
        crate::text::copy_all(&self.items)
    }
}

impl Clone for NameSet {
    fn clone(&self) -> (r: NameSet)
        ensures
            r@ == self@,
            r.listed() == self.listed(),
    {
        proof {
            use_type_invariant(self);
        }
        NameSet { items: crate::text::copy_all(&self.items) }
    }
}

pub proof fn lemma_push_to_set(s: Seq<Seq<char>>, x: Seq<char>)
    ensures
        s.push(x).to_set() == s.to_set().insert(x),
{
    let t = s.push(x);
    assert forall|y: Seq<char>| t.to_set().contains(y) == s.to_set().insert(x).contains(y) by {
        if s.contains(y) {
            let k = choose|k: int| 0 <= k < s.len() && s[k] == y;
            assert(t[k] == y);
        }
        if t.contains(y) {
            let k = choose|k: int| 0 <= k < t.len() && t[k] == y;
            if k < s.len() {
                assert(s[k] == y);
            }
        }
        assert(t[s.len() as int] == x);
    }
    assert(t.to_set() =~= s.to_set().insert(x));
}

proof fn lemma_remove_to_set(s: Seq<Seq<char>>, i: int)
    requires
        s.no_duplicates(),
        0 <= i < s.len(),
    ensures
        s.remove(i).to_set() == s.to_set().remove(s[i]),
        s.remove(i).no_duplicates(),
{
    let t = s.remove(i);
    let x = s[i];
    assert forall|y: Seq<char>| t.to_set().contains(y) == s.to_set().remove(x).contains(y) by {
        if s.contains(y) && y != x {
            let k = choose|k: int| 0 <= k < s.len() && s[k] == y;
            if k < i {
                assert(t[k] == y);
            } else {
                assert(t[k - 1] == y);
            }
        }
        if t.contains(y) {
            let k = choose|k: int| 0 <= k < t.len() && t[k] == y;
            if k < i {
                assert(s[k] == y);
            } else {
                assert(s[k + 1] == y);
            }
        }
    }
    assert(t.to_set() =~= s.to_set().remove(x));
}

/// A map from names to values.
#[derive(Debug)]
pub struct NameMap<V> {
    entries: Vec<(String, V)>,
}

/// The names of a list of entries.
pub open spec fn names_of<V>(entries: Seq<(String, V)>) -> Seq<Seq<char>> {
    entries.map_values(|e: (String, V)| e.0@)
}

/// A place at which a name stands among entries, where it stands there.
pub open spec fn place_of<V>(entries: Seq<(String, V)>, name: Seq<char>) -> int {
    choose|i: int| 0 <= i < entries.len() && (#[trigger] entries[i]).0@ == name
}

/// The map that a list of entries with different names stands for.
pub open spec fn entries_map<V>(entries: Seq<(String, V)>) -> Map<Seq<char>, V> {
    Map::new(
        |k: Seq<char>| names_of(entries).contains(k),
        |k: Seq<char>| entries[place_of(entries, k)].1,
    )
}

proof fn lemma_entry<V>(entries: Seq<(String, V)>, i: int)
    requires
        names_of(entries).no_duplicates(),
        0 <= i < entries.len(),
    ensures
        entries_map(entries).contains_key(entries[i].0@),
        entries_map(entries)[entries[i].0@] == entries[i].1,
{
    let k = entries[i].0@;
    assert(names_of(entries)[i] == k);
    assert(entries[i].0@ == k);
    let j = place_of(entries, k);
    assert(names_of(entries)[j] == k);
}

impl<V> View for NameMap<V> {
    type V = Map<Seq<char>, V>;

    closed spec fn view(&self) -> Map<Seq<char>, V> {
        entries_map(self.entries@)
    }
}

impl<V> NameMap<V> {
    /// The names in the order in which they are held.
    pub closed spec fn listed(&self) -> Seq<Seq<char>> {
        names_of(self.entries@)
    }

    #[verifier::type_invariant]
    spec fn wf(&self) -> bool {
        names_of(self.entries@).no_duplicates()
    }

    /// The empty map.
    pub fn new() -> (r: NameMap<V>)
        ensures
            r@ == Map::<Seq<char>, V>::empty(),
    {
        let r = NameMap { entries: Vec::new() };
        assert(entries_map(r.entries@) =~= Map::<Seq<char>, V>::empty());
        r
    }

    /// The number of entries.
    pub fn len(&self) -> (n: usize)
        ensures
            n == self.listed().len(),
            self.listed().no_duplicates(),
            self.listed().to_set() == self@.dom(),
    {
        proof {
            use_type_invariant(self);
            assert(self.listed().to_set() =~= self@.dom());
        }
        self.entries.len()
    }

    /// The entry at a place.
    pub fn at(&self, i: usize) -> (r: (&String, &V))
        requires
            i < self.listed().len(),
        ensures
            r.0@ == self.listed()[i as int],
            self@.contains_key(r.0@),
            self@[r.0@] == *r.1,
    {
        proof {
            use_type_invariant(self);
            lemma_entry(self.entries@, i as int);
        }
        let e = &self.entries[i];
        (&e.0, &e.1)
    }

    fn place(&self, name: &str) -> (r: Option<usize>)
        ensures
            match r {
                Some(i) => i < self.entries@.len() && self.entries@[i as int].0@ == name@,
                None => !self@.contains_key(name@),
            },
    {
        let mut i: usize = 0;
        while i < self.entries.len()
            invariant
                i <= self.entries@.len(),
                forall|k: int| 0 <= k < i ==> (#[trigger] self.entries@[k]).0@ != name@,
            decreases self.entries.len() - i,
        {
            if same(self.entries[i].0.as_str(), name) {
                return Some(i);
            }
            i += 1;
        }
        proof {
            let ns = names_of(self.entries@);
            if ns.contains(name@) {
                let k = choose|k: int| 0 <= k < ns.len() && ns[k] == name@;
                assert(self.entries@[k].0@ == name@);
            }
        }
        None
    }

    /// The value of a name, where it has one.
    pub fn get(&self, name: &str) -> (r: Option<&V>)
        ensures
            match r {
                Some(v) => self@.contains_key(name@) && self@[name@] == *v,
                None => !self@.contains_key(name@),
            },
    {
        match self.place(name) {
            Some(i) => {
                proof {
                    use_type_invariant(self);
                    lemma_entry(self.entries@, i as int);
                }
                Some(&self.entries[i].1)
            },
            None => None,
        }
    }

    /// Whether a name has a value.
    pub fn contains_key(&self, name: &str) -> (r: bool)
        ensures
            r == self@.contains_key(name@),
    {
        self.get(name).is_some()
    }

    /// Gives a name a value, in place of the one that it had.
    pub fn insert(&mut self, name: String, value: V)
        ensures
            final(self)@ == old(self)@.insert(name@, value),
    {
        proof {
            use_type_invariant(&*self);
        }
        let ghost was = self.entries@;
        let ghost n = name@;
        let place = self.place(name.as_str());
        let mut entries: Vec<(String, V)> = Vec::new();
        std::mem::swap(&mut entries, &mut self.entries);
        match place {
            Some(i) => {
                entries.set(i, (name, value));
                proof {
                    assert(names_of(entries@) =~= names_of(was));
                    let m = entries_map(was).insert(n, value);
                    assert forall|j: int| 0 <= j < entries@.len() implies m.contains_key(
                        (#[trigger] entries@[j]).0@,
                    ) && m[entries@[j].0@] == entries@[j].1 by {
                        lemma_entry(was, j);
                        assert(names_of(was)[j] == was[j].0@);
                        assert(names_of(was)[i as int] == n);
                        assert(names_of(entries@)[j] == entries@[j].0@);
                    }
                    assert forall|k: Seq<char>| #[trigger] m.contains_key(k) implies names_of(
                        entries@,
                    ).contains(k) by {
                        assert(names_of(was)[i as int] == n);
                    }
                    lemma_is_map(entries@, m);
                }
            },
            None => {
                entries.push((name, value));
                proof {
                    assert(names_of(entries@) =~= names_of(was).push(n));
                    assert(names_of(entries@).no_duplicates());
                    let m = entries_map(was).insert(n, value);
                    assert forall|j: int| 0 <= j < entries@.len() implies m.contains_key(
                        (#[trigger] entries@[j]).0@,
                    ) && m[entries@[j].0@] == entries@[j].1 by {
                        if j < was.len() {
                            lemma_entry(was, j);
                            assert(names_of(was)[j] == was[j].0@);
                        }
                    }
                    lemma_push_to_set(names_of(was), n);
                    assert forall|k: Seq<char>| #[trigger] m.contains_key(k) implies names_of(
                        entries@,
                    ).contains(k) by {
                        assert(names_of(was).push(n).to_set().contains(k));
                    }
                    lemma_is_map(entries@, m);
                }
            },
        }
        self.entries = entries;
    }

    /// Takes a name out; the value that it had.
    pub fn remove(&mut self, name: &str) -> (r: Option<V>)
        ensures
            final(self)@ == old(self)@.remove(name@),
            match r {
                Some(v) => old(self)@.contains_key(name@) && old(self)@[name@] == v,
                None => !old(self)@.contains_key(name@),
            },
    {
        proof {
            use_type_invariant(&*self);
        }
        let ghost was = self.entries@;
        match self.place(name) {
            Some(i) => {
                let mut entries: Vec<(String, V)> = Vec::new();
                std::mem::swap(&mut entries, &mut self.entries);
                let e = entries.remove(i);
                proof {
                    lemma_entry(was, i as int);
                    assert(names_of(entries@) =~= names_of(was).remove(i as int));
                    lemma_remove_to_set(names_of(was), i as int);
                    let m = entries_map(was).remove(name@);
                    assert forall|j: int| 0 <= j < entries@.len() implies m.contains_key(
                        (#[trigger] entries@[j]).0@,
                    ) && m[entries@[j].0@] == entries@[j].1 by {
                        let o = if j < i { j } else { j + 1 };
                        lemma_entry(was, o);
                        assert(names_of(was)[o] == was[o].0@);
                        assert(names_of(was)[i as int] == name@);
                    }
                    assert forall|k: Seq<char>| #[trigger] m.contains_key(k) implies names_of(
                        entries@,
                    ).contains(k) by {
                        assert(names_of(was).remove(i as int).to_set().contains(k));
                    }
                    lemma_is_map(entries@, m);
                }
                self.entries = entries;
                Some(e.1)
            },
            None => {
                assert(self@ =~= self@.remove(name@));
                None
            },
        }
    }

    /// Takes out the names that are not among the given ones.
    pub fn retain(&mut self, names: &NameSet)
        ensures
            final(self)@ == old(self)@.restrict(names@),
    {
        let ghost start = self@;
        let ghost listed = self.listed();
        let n: usize = self.len();
        let mut gone: Vec<String> = Vec::new();
        let mut i: usize = 0;
        while i < n
            invariant
                i <= n,
                n == listed.len(),
                listed == self.listed(),
                self@ == start,
                forall|k: int|
                    0 <= k < gone@.len() ==> !names@.contains((#[trigger] gone@[k])@),
                forall|k: int|
                    0 <= k < i ==> names@.contains(#[trigger] listed[k]) || views(gone@).contains(
                        listed[k],
                    ),
            decreases n - i,
        {
            let name = self.at(i).0;
            if !names.contains(name.as_str()) {
                let ghost before = gone@;
                gone.push(name.clone());
                proof {
                    assert(views(gone@) =~= views(before).push(name@));
                    assert forall|k: int| 0 <= k <= i implies names@.contains(#[trigger] listed[k])
                        || views(gone@).contains(listed[k]) by {
                        if k < i && views(before).contains(listed[k]) {
                            let j = choose|j: int|
                                0 <= j < views(before).len() && views(before)[j] == listed[k];
                            assert(views(gone@)[j] == listed[k]);
                        } else if k == i {
                            assert(views(gone@)[before.len() as int] == listed[k]);
                        }
                    }
                }
            }
            i += 1;
        }
        let mut j: usize = 0;
        assert(start.remove_keys(views(gone@).take(0).to_set()) =~= start);
        while j < gone.len()
            invariant
                j <= gone@.len(),
                self@ == start.remove_keys(views(gone@).take(j as int).to_set()),
            decreases gone.len() - j,
        {
            self.remove(gone[j].as_str());
            proof {
                let all = views(gone@);
                assert(all.take(j + 1) =~= all.take(j as int).push(all[j as int]));
                lemma_push_to_set(all.take(j as int), all[j as int]);
                assert(self@ =~= start.remove_keys(all.take(j + 1).to_set()));
            }
            j += 1;
        }
        proof {
            let all = views(gone@);
            assert(all.take(j as int) =~= all);
            assert forall|k: Seq<char>|
                #![trigger self@.dom().contains(k)]
                #![trigger start.restrict(names@).dom().contains(k)]
                self@.dom().contains(k) == start.restrict(names@).dom().contains(k) by {
                if start.dom().contains(k) {
                    assert(listed.to_set().contains(k));
                    let at = choose|at: int| 0 <= at < listed.len() && listed[at] == k;
                    assert(names@.contains(listed[at]) || all.contains(listed[at]));
                    if all.to_set().contains(k) {
                        let g = choose|g: int| 0 <= g < all.len() && all[g] == k;
                        assert(gone@[g]@ == k);
                    }
                }
            }
            assert(self@ =~= start.restrict(names@));
        }
    }
}

proof fn lemma_is_map<V>(entries: Seq<(String, V)>, m: Map<Seq<char>, V>)
    requires
        names_of(entries).no_duplicates(),
        forall|j: int|
            0 <= j < entries.len() ==> m.contains_key((#[trigger] entries[j]).0@)
                && m[entries[j].0@] == entries[j].1,
        forall|k: Seq<char>| #[trigger] m.contains_key(k) ==> names_of(entries).contains(k),
    ensures
        entries_map(entries) == m,
{
    let e = entries_map(entries);
    assert forall|k: Seq<char>|
        #![trigger m.dom().contains(k)]
        #![trigger e.dom().contains(k)]
        m.dom().contains(k) == e.dom().contains(k) && (m.dom().contains(k) ==> e[k] == m[k]) by {
        if names_of(entries).contains(k) {
            let j = choose|j: int| 0 <= j < names_of(entries).len() && names_of(entries)[j] == k;
            assert(entries[j].0@ == k);
            lemma_entry(entries, j);
        }
        if m.contains_key(k) {
            assert(names_of(entries).contains(k));
        }
    }
    assert(e =~= m);
}

} // verus!
