//! Label sets: text keys with text values, held in the order of the keys.

use crate::text::{chars_of, same};
use vstd::prelude::*;

verus! {

/// Whether `a` stands before `b` in the order of their characters' code points,
/// compared from the left.
pub open spec fn text_before(a: Seq<char>, b: Seq<char>) -> bool
    decreases a.len(),
{
    if b.len() == 0 {
        false
    } else if a.len() == 0 {
        true
    } else if a[0] != b[0] {
        a[0] < b[0]
    } else {
        text_before(a.drop_first(), b.drop_first())
    }
}

proof fn lemma_before_at(a: Seq<char>, b: Seq<char>, i: int)
    requires
        0 <= i <= a.len(),
        i <= b.len(),
        forall|k: int| 0 <= k < i ==> a[k] == b[k],
    ensures
        text_before(a, b) == text_before(a.skip(i), b.skip(i)),
    decreases i,
{
    if i > 0 {
        let x = a.drop_first();
        let y = b.drop_first();
        assert(a[0] == b[0]);
        assert forall|k: int| 0 <= k < i - 1 implies x[k] == y[k] by {
            assert(x[k] == a[k + 1]);
            assert(y[k] == b[k + 1]);
        }
        lemma_before_at(x, y, i - 1);
        assert(x.skip(i - 1) =~= a.skip(i));
        assert(y.skip(i - 1) =~= b.skip(i));
    } else {
        assert(a.skip(0) =~= a);
        assert(b.skip(0) =~= b);
    }
}

pub proof fn lemma_before_irreflexive(a: Seq<char>)
    ensures
        !text_before(a, a),
    decreases a.len(),
{
    if a.len() > 0 {
        lemma_before_irreflexive(a.drop_first());
    }
}

pub proof fn lemma_before_transitive(a: Seq<char>, b: Seq<char>, c: Seq<char>)
    requires
        text_before(a, b),
        text_before(b, c),
    ensures
        text_before(a, c),
    decreases a.len(),
{
    if a.len() > 0 && b.len() > 0 && c.len() > 0 && a[0] == b[0] && b[0] == c[0] {
        lemma_before_transitive(a.drop_first(), b.drop_first(), c.drop_first());
    }
}

pub proof fn lemma_before_total(a: Seq<char>, b: Seq<char>)
    requires
        a != b,
    ensures
        text_before(a, b) || text_before(b, a),
    decreases a.len(),
{
    if a.len() > 0 && b.len() > 0 && a[0] == b[0] {
        if a.drop_first() == b.drop_first() {
            assert(a =~= seq![a[0]] + a.drop_first());
            assert(b =~= seq![b[0]] + b.drop_first());
        }
        lemma_before_total(a.drop_first(), b.drop_first());
    } else if a.len() == 0 && b.len() == 0 {
        assert(a =~= b);
    }
}

/// Whether `a` stands before `b` in the order of their code points.
pub fn before(a: &str, b: &str) -> (r: bool)
    ensures
        r == text_before(a@, b@),
{
    let x = chars_of(a);
    let y = chars_of(b);
    let mut i: usize = 0;
    while i < x.len() && i < y.len() && x[i] == y[i]
        invariant
            i <= x@.len(),
            i <= y@.len(),
            forall|k: int| 0 <= k < i ==> x@[k] == y@[k],
        decreases x.len() - i,
    {
        i += 1;
    }
    proof {
        lemma_before_at(x@, y@, i as int);
    }
    if i == y.len() {
        false
    } else if i == x.len() {
        true
    } else {
        assert(x@.skip(i as int)[0] == x@[i as int]);
        assert(y@.skip(i as int)[0] == y@[i as int]);
        x[i] < y[i]
    }
}

/// A set of labels: at most one value for each key, in the order of the keys.
#[derive(Debug)]
pub struct Labels {
    entries: Vec<(String, String)>,
}

/// The pairs of a list of pairs of strings, by their contents.
pub open spec fn pairs_of(entries: Seq<(String, String)>) -> Seq<(Seq<char>, Seq<char>)> {
    entries.map_values(|e: (String, String)| (e.0@, e.1@))
}

/// Whether the keys of `pairs` stand in strictly rising order.
pub open spec fn keys_rise(pairs: Seq<(Seq<char>, Seq<char>)>) -> bool {
    forall|i: int, j: int|
        0 <= i < j < pairs.len() ==> text_before(#[trigger] pairs[i].0, #[trigger] pairs[j].0)
}

/// The map that a list of pairs stands for.
pub open spec fn map_of(pairs: Seq<(Seq<char>, Seq<char>)>) -> Map<Seq<char>, Seq<char>>
    decreases pairs.len(),
{
    if pairs.len() == 0 {
        Map::empty()
    } else {
        map_of(pairs.drop_last()).insert(pairs.last().0, pairs.last().1)
    }
}

proof fn lemma_map_of(pairs: Seq<(Seq<char>, Seq<char>)>)
    requires
        keys_rise(pairs),
    ensures
        forall|i: int|
            0 <= i < pairs.len() ==> map_of(pairs).contains_key(#[trigger] pairs[i].0) && map_of(
                pairs,
            )[pairs[i].0] == pairs[i].1,
        forall|k: Seq<char>| #[trigger]
            map_of(pairs).contains_key(k) ==> exists|i: int|
                0 <= i < pairs.len() && #[trigger] pairs[i].0 == k,
        map_of(pairs).dom().finite(),
        map_of(pairs).len() == pairs.len(),
    decreases pairs.len(),
{
    if pairs.len() > 0 {
        let head = pairs.drop_last();
        assert forall|i: int, j: int| 0 <= i < j < head.len() implies text_before(
            #[trigger] head[i].0,
            #[trigger] head[j].0,
        ) by {
            assert(head[i] == pairs[i] && head[j] == pairs[j]);
        }
        lemma_map_of(head);
        let last = pairs.last();
        assert forall|i: int| 0 <= i < head.len() implies #[trigger] head[i].0 != last.0 by {
            assert(head[i] == pairs[i]);
            assert(text_before(pairs[i].0, pairs[pairs.len() - 1].0));
            lemma_before_irreflexive(last.0);
        }
        assert(!map_of(head).contains_key(last.0));
        assert forall|i: int| 0 <= i < pairs.len() implies map_of(pairs).contains_key(
            #[trigger] pairs[i].0,
        ) && map_of(pairs)[pairs[i].0] == pairs[i].1 by {
            if i < head.len() {
                assert(head[i] == pairs[i]);
            }
        }
        assert forall|k: Seq<char>| #[trigger] map_of(pairs).contains_key(k) implies exists|i: int|
            0 <= i < pairs.len() && #[trigger] pairs[i].0 == k by {
            if k == last.0 {
                assert(pairs[pairs.len() - 1].0 == k);
            } else {
                assert(map_of(head).contains_key(k));
                let i = choose|i: int| 0 <= i < head.len() && #[trigger] head[i].0 == k;
                assert(pairs[i].0 == k);
            }
        }
    }
}

impl View for Labels {
    type V = Map<Seq<char>, Seq<char>>;

    closed spec fn view(&self) -> Map<Seq<char>, Seq<char>> {
        map_of(pairs_of(self.entries@))
    }
}

impl Labels {
    /// The labels as pairs, in the order of the keys.
    pub closed spec fn pairs(&self) -> Seq<(Seq<char>, Seq<char>)> {
        pairs_of(self.entries@)
    }

    #[verifier::type_invariant]
    spec fn wf(&self) -> bool {
        keys_rise(pairs_of(self.entries@))
    }

    /// The empty set of labels.
    pub fn new() -> (r: Labels)
        ensures
            r@ == Map::<Seq<char>, Seq<char>>::empty(),
    {
        let r = Labels { entries: Vec::new() };
        assert(pairs_of(r.entries@) =~= seq![]);
        r
    }

    /// The number of labels.
    pub fn len(&self) -> (n: usize)
        ensures
            n == self@.len(),
            n == self.pairs().len(),
            self@.dom().finite(),
            keys_rise(self.pairs()),
            map_of(self.pairs()) == self@,
            forall|i: int|
                0 <= i < self.pairs().len() ==> self@.contains_key(#[trigger] self.pairs()[i].0)
                    && self@[self.pairs()[i].0] == self.pairs()[i].1,
            forall|k: Seq<char>| #[trigger]
                self@.contains_key(k) ==> exists|i: int|
                    0 <= i < self.pairs().len() && #[trigger] self.pairs()[i].0 == k,
    {
        proof {
            use_type_invariant(self);
            lemma_map_of(self.pairs());
        }
        self.entries.len()
    }

    /// Whether there is no label.
    pub fn is_empty(&self) -> (r: bool)
        ensures
            r == (self@ == Map::<Seq<char>, Seq<char>>::empty()),
    {
        proof {
            use_type_invariant(self);
            lemma_map_of(self.pairs());
            if self.pairs().len() > 0 {
                assert(self@.contains_key(self.pairs()[0].0));
            }
        }
        self.entries.len() == 0
    }

    /// The label at a place in the order of the keys.
    pub fn at(&self, i: usize) -> (r: (&String, &String))
        requires
            i < self.pairs().len(),
        ensures
            (r.0@, r.1@) == self.pairs()[i as int],
            self@.contains_key(r.0@),
            self@[r.0@] == r.1@,
    {
        proof {
            use_type_invariant(self);
            lemma_map_of(self.pairs());
        }
        let e = &self.entries[i];
        assert(self.pairs()[i as int].0 == e.0@);
        (&e.0, &e.1)
    }

    /// The value of a key, where it has one.
    pub fn get(&self, key: &str) -> (r: Option<&String>)
        ensures
            match r {
                Some(v) => self@.contains_key(key@) && self@[key@] == v@,
                None => !self@.contains_key(key@),
            },
    {
        proof {
            use_type_invariant(self);
            lemma_map_of(self.pairs());
        }
        let mut i: usize = 0;
        while i < self.entries.len()
            invariant
                i <= self.entries@.len(),
                forall|k: int| 0 <= k < i ==> (#[trigger] self.entries@[k]).0@ != key@,
            decreases self.entries.len() - i,
        {
            if same(self.entries[i].0.as_str(), key) {
                proof {
                    use_type_invariant(self);
                    lemma_map_of(self.pairs());
                    assert(self.pairs()[i as int].0 == key@);
                }
                return Some(&self.entries[i].1);
            }
            i += 1;
        }
        assert forall|k: int| 0 <= k < self.pairs().len() implies (#[trigger] self.pairs()[k]).0
            != key@ by {
            assert(self.pairs()[k].0 == self.entries@[k].0@);
        }
        None
    }

    /// Whether a key has the given value.
    pub fn has(&self, key: &str, value: &str) -> (r: bool)
        ensures
            r == (self@.contains_key(key@) && self@[key@] == value@),
    {
        match self.get(key) {
            Some(v) => same(v.as_str(), value),
            None => false,
        }
    }

    /// Gives a key a value, in place of the one that it had.
    pub fn insert(&mut self, key: String, value: String)
        ensures
            final(self)@ == old(self)@.insert(key@, value@),
    {
        proof {
            use_type_invariant(&*self);
        }
        let ghost old_pairs = self.pairs();
        let ghost k = key@;
        let ghost v = value@;
        let mut entries: Vec<(String, String)> = Vec::new();
        std::mem::swap(&mut entries, &mut self.entries);
        let mut i: usize = 0;
        while i < entries.len() && before(entries[i].0.as_str(), key.as_str())
            invariant
                i <= entries@.len(),
                forall|j: int| 0 <= j < i ==> text_before((#[trigger] entries@[j]).0@, key@),
            decreases entries.len() - i,
        {
            i += 1;
        }
        let ghost before_change = pairs_of(entries@);
        if i < entries.len() && same(entries[i].0.as_str(), key.as_str()) {
            entries.set(i, (key, value));
            proof {
                lemma_replace(old_pairs, i as int, k, v);
                assert(pairs_of(entries@) =~= old_pairs.update(i as int, (k, v)));
            }
        } else {
            proof {
                if i < entries@.len() {
                    lemma_before_total(entries@[i as int].0@, key@);
                }
                lemma_insert(old_pairs, i as int, k, v);
            }
            entries.insert(i, (key, value));
            assert(pairs_of(entries@) =~= old_pairs.insert(i as int, (k, v)));
        }
        self.entries = entries;
    }
}

impl Clone for Labels {
    fn clone(&self) -> (r: Labels)
        ensures
            r@ == self@,
            r.pairs() == self.pairs(),
    {
        proof {
            use_type_invariant(self);
        }
        let mut entries: Vec<(String, String)> = Vec::new();
        let mut i: usize = 0;
        while i < self.entries.len()
            invariant
                i <= self.entries@.len(),
                pairs_of(entries@) == self.pairs().take(i as int),
            decreases self.entries.len() - i,
        {
            let ghost was = entries@;
            entries.push((self.entries[i].0.clone(), self.entries[i].1.clone()));
            assert(pairs_of(entries@) =~= pairs_of(was).push(self.pairs()[i as int]));
            assert(self.pairs().take(i + 1) =~= self.pairs().take(i as int).push(
                self.pairs()[i as int],
            ));
            i += 1;
        }
        assert(self.pairs().take(i as int) =~= self.pairs());
        Labels { entries }
    }
}

proof fn lemma_replace(pairs: Seq<(Seq<char>, Seq<char>)>, i: int, k: Seq<char>, v: Seq<char>)
    requires
        keys_rise(pairs),
        0 <= i < pairs.len(),
        pairs[i].0 == k,
    ensures
        keys_rise(pairs.update(i, (k, v))),
        map_of(pairs.update(i, (k, v))) == map_of(pairs).insert(k, v),
{
    let next = pairs.update(i, (k, v));
    assert(forall|j: int| 0 <= j < next.len() ==> (#[trigger] next[j]).0 == pairs[j].0);
    assert(keys_rise(next));
    lemma_map_of(pairs);
    lemma_map_of(next);
    let m = map_of(pairs).insert(k, v);
    assert forall|x: Seq<char>|
        #![trigger m.dom().contains(x)]
        #![trigger map_of(next).dom().contains(x)]
        m.dom().contains(x) == map_of(next).dom().contains(x) && (m.dom().contains(x) ==> m[x]
            == map_of(next)[x]) by {
        if m.contains_key(x) {
            if x == k {
                assert(next[i].0 == k);
            } else {
                assert(map_of(pairs).contains_key(x));
                let j = choose|j: int| 0 <= j < pairs.len() && #[trigger] pairs[j].0 == x;
                assert(next[j].0 == x);
                assert(pairs[j].0 == x);
            }
        } else if map_of(next).contains_key(x) {
            let j = choose|j: int| 0 <= j < next.len() && #[trigger] next[j].0 == x;
            assert(pairs[j].0 == x);
        }
    }
    assert(map_of(next) =~= m);
}

proof fn lemma_insert(pairs: Seq<(Seq<char>, Seq<char>)>, i: int, k: Seq<char>, v: Seq<char>)
    requires
        keys_rise(pairs),
        0 <= i <= pairs.len(),
        forall|j: int| 0 <= j < i ==> text_before((#[trigger] pairs[j]).0, k),
        i < pairs.len() ==> text_before(k, pairs[i].0),
    ensures
        keys_rise(pairs.insert(i, (k, v))),
        map_of(pairs.insert(i, (k, v))) == map_of(pairs).insert(k, v),
{
    let next = pairs.insert(i, (k, v));
    assert forall|a: int, b: int| 0 <= a < b < next.len() implies text_before(
        #[trigger] next[a].0,
        #[trigger] next[b].0,
    ) by {
        if a < i && b < i {
            assert(next[a] == pairs[a] && next[b] == pairs[b]);
        } else if a < i && b == i {
            assert(next[a] == pairs[a]);
        } else if a < i {
            assert(next[a] == pairs[a] && next[b] == pairs[b - 1]);
        } else if a == i {
            assert(next[b] == pairs[b - 1]);
            if b - 1 > i {
                assert(text_before(pairs[i].0, pairs[b - 1].0));
                lemma_before_transitive(k, pairs[i].0, pairs[b - 1].0);
            }
        } else {
            assert(next[a] == pairs[a - 1] && next[b] == pairs[b - 1]);
        }
    }
    lemma_map_of(pairs);
    lemma_map_of(next);
    let m = map_of(pairs).insert(k, v);
    assert forall|x: Seq<char>|
        #![trigger m.dom().contains(x)]
        #![trigger map_of(next).dom().contains(x)]
        m.dom().contains(x) == map_of(next).dom().contains(x) && (m.dom().contains(x) ==> m[x]
            == map_of(next)[x]) by {
        if m.contains_key(x) {
            if x == k {
                assert(next[i].0 == k);
            } else {
                assert(map_of(pairs).contains_key(x));
                let j = choose|j: int| 0 <= j < pairs.len() && #[trigger] pairs[j].0 == x;
                assert(pairs[j].0 == x);
                if j < i {
                    assert(next[j].0 == x);
                } else {
                    assert(next[j + 1].0 == x);
                }
            }
        } else if map_of(next).contains_key(x) {
            let j = choose|j: int| 0 <= j < next.len() && #[trigger] next[j].0 == x;
            if j < i {
                assert(pairs[j].0 == x);
            } else if j > i {
                assert(pairs[j - 1].0 == x);
            }
        }
    }
    assert(map_of(next) =~= m);
}

/// Two sets of labels with the same entries list them in the same order.
pub proof fn lemma_pairs_unique(
    a: Seq<(Seq<char>, Seq<char>)>,
    b: Seq<(Seq<char>, Seq<char>)>,
)
    requires
        keys_rise(a),
        keys_rise(b),
        map_of(a) == map_of(b),
    ensures
        a == b,
    decreases a.len(),
{
    lemma_map_of(a);
    lemma_map_of(b);
    if a.len() > 0 {
        let n = a.len() - 1;
        let x = a[n].0;
        let y = b[n].0;
        assert(map_of(b).contains_key(x));
        let i = choose|i: int| 0 <= i < b.len() && #[trigger] b[i].0 == x;
        assert(map_of(a).contains_key(y));
        let j = choose|j: int| 0 <= j < a.len() && #[trigger] a[j].0 == y;
        if x != y {
            assert(text_before(b[i].0, b[n].0));
            assert(text_before(a[j].0, a[n].0));
            lemma_before_transitive(x, y, x);
            lemma_before_irreflexive(x);
        }
        assert(a[n] == b[n]);
        let p = a.drop_last();
        let q = b.drop_last();
        assert(forall|i: int| 0 <= i < p.len() ==> #[trigger] p[i] == a[i]);
        assert(forall|i: int| 0 <= i < q.len() ==> #[trigger] q[i] == b[i]);
        assert(keys_rise(p) && keys_rise(q));
        lemma_map_of(p);
        lemma_map_of(q);
        lemma_not_in_head(a);
        lemma_not_in_head(b);
        assert(map_of(p) =~= map_of(a).remove(x));
        assert(map_of(q) =~= map_of(b).remove(x));
        lemma_pairs_unique(p, q);
        assert(a =~= p.push(a[n]));
        assert(b =~= q.push(b[n]));
    } else {
        assert(a =~= b);
    }
}

proof fn lemma_not_in_head(pairs: Seq<(Seq<char>, Seq<char>)>)
    requires
        keys_rise(pairs),
        pairs.len() > 0,
    ensures
        !map_of(pairs.drop_last()).contains_key(pairs.last().0),
{
    let head = pairs.drop_last();
    assert(forall|i: int| 0 <= i < head.len() ==> #[trigger] head[i] == pairs[i]);
    assert(keys_rise(head));
    lemma_map_of(head);
    if map_of(head).contains_key(pairs.last().0) {
        let i = choose|i: int| 0 <= i < head.len() && #[trigger] head[i].0 == pairs.last().0;
        assert(text_before(pairs[i].0, pairs[pairs.len() - 1].0));
        lemma_before_irreflexive(pairs.last().0);
    }
}

} // verus!
