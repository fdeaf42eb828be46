//! Which replica answers for which resource.
//!
//! Each resource goes to the active replica with the highest weight, a hash of the
//! replica and the resource (rendezvous hashing). When a resource changes hands the
//! old owner goes on scraping and serving for a while, until the new one has seen a
//! full evaluation period.

use crate::duration::{elapsed, since};
use crate::membership::manager::MembershipManager;
use crate::names::NameMap;
use crate::text::{opt_view, same, views};
use fnv::FnvHasher;
use std::hash::{Hash, Hasher};
use vstd::prelude::*;
use vstd::string::StringExecFns;

verus! {

/// How much longer than an evaluation period an old owner goes on, in nanoseconds.
pub const GRACE_BUFFER: u128 = 5_000_000_000;

/// What `fnv::FnvHasher` makes of a replica's ID and a resource's key, hashed one
/// after the other.
pub uninterp spec fn fnv_weight(replica_id: Seq<char>, epa_key: Seq<char>) -> u64;

/// Feeds a replica's ID and then a resource's key, as strings, to a fresh
/// `fnv::FnvHasher`, and finishes it. Claimed is only that the result depends on the
/// two texts alone: the hasher starts from a fixed state and goes byte by byte.
#[verifier::external_body]
fn compute_weight(replica_id: &str, epa_key: &str) -> (weight: u64)
    ensures
        weight == fnv_weight(replica_id@, epa_key@),
{
    let mut hasher = FnvHasher::default();
    replica_id.hash(&mut hasher);
    epa_key.hash(&mut hasher);
    hasher.finish()
}

/// The key of a resource: its namespace and name.
pub open spec fn key_of(namespace: Seq<char>, name: Seq<char>) -> Seq<char> {
    namespace + "/"@ + name
}

/// The key of a resource: its namespace and name.
pub fn epa_key(namespace: &str, name: &str) -> (key: String)
    ensures
        key@ == key_of(namespace@, name@),
{
    let mut key = namespace.to_owned();
    key.append("/");
    key.append(name);
    key
}

/// Whether `i` is the last place of a highest weight.
pub open spec fn is_heaviest(weights: Seq<u64>, i: int) -> bool {
    &&& 0 <= i < weights.len()
    &&& forall|j: int| 0 <= j < weights.len() ==> #[trigger] weights[j] <= weights[i]
    &&& forall|j: int| i < j < weights.len() ==> #[trigger] weights[j] < weights[i]
}

/// The last place of a highest weight.
pub fn heaviest(weights: &Vec<u64>) -> (r: Option<usize>)
    ensures
        match r {
            Some(i) => is_heaviest(weights@, i as int),
            None => weights@.len() == 0,
        },
{
    if weights.len() == 0 {
        return None;
    }
    let mut best: usize = 0;
    let mut i: usize = 1;
    while i < weights.len()
        invariant
            1 <= i <= weights@.len(),
            best < i,
            forall|j: int| 0 <= j < i ==> #[trigger] weights@[j] <= weights@[best as int],
            forall|j: int| best < j < i ==> #[trigger] weights@[j] < weights@[best as int],
        decreases weights.len() - i,
    {
        if weights[i] >= weights[best] {
            best = i;
        }
        i += 1;
    }
    Some(best)
}

/// Whether a replica is of the set and no other of the set weighs more for a resource.
pub open spec fn wins(replicas: Set<Seq<char>>, key: Seq<char>, id: Seq<char>) -> bool {
    &&& replicas.contains(id)
    &&& forall|other: Seq<char>|
        replicas.contains(other) ==> #[trigger] fnv_weight(other, key) <= fnv_weight(id, key)
}

/// Whether a choice of an owner is right: a replica of highest weight, or none
/// where there is no replica.
pub open spec fn is_owner(
    replicas: Set<Seq<char>>,
    key: Seq<char>,
    owner: Option<Seq<char>>,
) -> bool {
    match owner {
        Some(id) => wins(replicas, key, id),
        None => forall|id: Seq<char>| !replicas.contains(id),
    }
}

/// Whether no two replicas of a set have the same weight for a resource.
pub open spec fn no_ties(replicas: Set<Seq<char>>, key: Seq<char>) -> bool {
    forall|a: Seq<char>, b: Seq<char>|
        replicas.contains(a) && replicas.contains(b) && a != b ==> #[trigger] fnv_weight(a, key)
            != #[trigger] fnv_weight(b, key)
}

/// The replica of highest weight for a resource; the last of them where several
/// have it.
pub fn highest_weight_replica(replicas: &Vec<String>, key: &str) -> (r: Option<String>)
    ensures
        is_owner(views(replicas@).to_set(), key@, opt_view(r)),
        match r {
            Some(id) => exists|i: int|
                #![trigger replicas@[i]]
                0 <= i < replicas@.len() && replicas@[i]@ == id@ && is_heaviest(
                    views(replicas@).map_values(|x: Seq<char>| fnv_weight(x, key@)),
                    i,
                ),
            None => replicas@.len() == 0,
        },
{
    let ghost ids = views(replicas@);
    let ghost ws = ids.map_values(|x: Seq<char>| fnv_weight(x, key@));
    let mut weights: Vec<u64> = Vec::new();
    let mut i: usize = 0;
    while i < replicas.len()
        invariant
            i <= replicas@.len(),
            ids == views(replicas@),
            ws == ids.map_values(|x: Seq<char>| fnv_weight(x, key@)),
            weights@ == ws.take(i as int),
        decreases replicas.len() - i,
    {
        weights.push(compute_weight(replicas[i].as_str(), key));
        assert(weights@ =~= ws.take(i + 1));
        i += 1;
    }
    assert(ws.take(i as int) =~= ws);
    match heaviest(&weights) {
        Some(best) => {
            proof {
                let id = replicas@[best as int]@;
                assert(ids[best as int] == id);
                assert forall|other: Seq<char>| ids.to_set().contains(
                    other,
                ) implies #[trigger] fnv_weight(other, key@) <= fnv_weight(id, key@) by {
                    let j = choose|j: int| 0 <= j < ids.len() && ids[j] == other;
                    assert(ws[j] == fnv_weight(other, key@));
                }
            }
            Some(replicas[best].clone())
        },
        None => None,
    }
}

/// Since when this replica owns a resource, and the resource's evaluation period.
#[derive(Debug, Clone, Copy, PartialEq, Eq, Structural)]
pub struct OwnershipState {
    /// When this replica became the owner
    pub since: u64,
    /// The evaluation period, in nanoseconds
    pub evaluation_period: u128,
}

/// When this replica lost a resource, and the resource's evaluation period then.
#[derive(Debug, Clone, Copy, PartialEq, Eq, Structural)]
pub struct LostOwnership {
    /// When the resource was lost
    pub at: u64,
    /// The evaluation period at the time of the loss, in nanoseconds
    pub evaluation_period: u128,
}

/// What this replica owns and what it has lost, by the keys of the resources.
pub struct Holdings {
    pub owned: Map<Seq<char>, OwnershipState>,
    pub lost: Map<Seq<char>, LostOwnership>,
}

/// Whether a lost resource is still within its grace window.
pub open spec fn in_grace(lost: LostOwnership, now: u64) -> bool {
    elapsed(now, lost.at) < lost.evaluation_period + GRACE_BUFFER
}

/// The entries of lost resources that are still within their grace windows.
pub open spec fn still_lost(
    lost: Map<Seq<char>, LostOwnership>,
    now: u64,
) -> Map<Seq<char>, LostOwnership> {
    Map::new(|k: Seq<char>| lost.contains_key(k) && in_grace(lost[k], now), |k: Seq<char>| lost[k])
}

impl Holdings {
    /// The holdings after a tick in which this replica was found to be the owner of
    /// a resource, or not.
    pub open spec fn refreshed(
        self,
        key: Seq<char>,
        mine: bool,
        evaluation_period: u128,
        now: u64,
    ) -> Holdings {
        if mine {
            let since = if self.owned.contains_key(key) {
                self.owned[key].since
            } else {
                now
            };
            Holdings {
                owned: self.owned.insert(key, OwnershipState { since, evaluation_period }),
                lost: still_lost(self.lost.remove(key), now),
            }
        } else if self.owned.contains_key(key) {
            let lost = if self.lost.contains_key(key) {
                self.lost
            } else {
                self.lost.insert(key, LostOwnership { at: now, evaluation_period })
            };
            Holdings { owned: self.owned.remove(key), lost: still_lost(lost, now) }
        } else {
            Holdings { owned: self.owned, lost: still_lost(self.lost, now) }
        }
    }

    /// Whether this replica collects the metrics of a resource.
    pub open spec fn scrapes(self, key: Seq<char>) -> bool {
        self.owned.contains_key(key) || self.lost.contains_key(key)
    }

    /// Whether this replica, `my_id`, answers for a resource at `now`, where
    /// `previous` would own it if the draining replicas still took part.
    pub open spec fn serves(
        self,
        key: Seq<char>,
        previous: Option<Seq<char>>,
        my_id: Seq<char>,
        now: u64,
    ) -> bool {
        if self.owned.contains_key(key) {
            let state = self.owned[key];
            elapsed(now, state.since) >= state.evaluation_period || previous is None
                || previous == Some(my_id)
        } else {
            self.lost.contains_key(key)
        }
    }
}

/// Whether a replica can be found to be the owner of a resource (`mine`), or not to
/// be. Only where several replicas have the highest weight can it be either.
pub open spec fn may_find(
    replicas: Set<Seq<char>>,
    key: Seq<char>,
    my_id: Seq<char>,
    mine: bool,
) -> bool {
    exists|owner: Option<Seq<char>>| #[trigger]
        is_owner(replicas, key, owner) && mine == (owner == Some(my_id))
}

/// The resources that this replica owns and those that it has lost.
#[derive(Debug)]
pub struct EpaOwnership {
    owned: NameMap<OwnershipState>,
    lost: NameMap<LostOwnership>,
}

impl View for EpaOwnership {
    type V = Holdings;

    closed spec fn view(&self) -> Holdings {
        Holdings { owned: self.owned@, lost: self.lost@ }
    }
}

impl EpaOwnership {
    /// Nothing owned and nothing lost.
    pub fn new() -> (r: EpaOwnership)
        ensures
            r@.owned == Map::<Seq<char>, OwnershipState>::empty(),
            r@.lost == Map::<Seq<char>, LostOwnership>::empty(),
    {
        EpaOwnership { owned: NameMap::new(), lost: NameMap::new() }
    }

    /// The replica that owns a resource among the active ones. All replicas that see
    /// the same active ones find the same owner.
    pub fn get_epa_owner(membership: &MembershipManager, namespace: &str, name: &str) -> (r: Option<
        String,
    >)
        ensures
            is_owner(
                membership.active_set(),
                key_of(namespace@, name@),
                opt_view(r),
            ),
    {
        let key = epa_key(namespace, name);
        let replicas = membership.get_active_replicas();
        highest_weight_replica(&replicas, key.as_str())
    }

    /// Whether this replica owns a resource.
    pub fn is_epa_owner(membership: &MembershipManager, namespace: &str, name: &str) -> (r: bool)
        ensures
            may_find(membership.active_set(), key_of(namespace@, name@), membership.id(), r),
    {
        let owner = Self::get_epa_owner(membership, namespace, name);
        let ghost found = opt_view(owner);
        assert(is_owner(membership.active_set(), key_of(namespace@, name@), found));
        match owner {
            Some(id) => same(id.as_str(), membership.my_replica_id()),
            None => false,
        }
    }

    /// The replica that would own a resource if the draining replicas still took
    /// part. Where the owner is draining, this is that replica, not its successor.
    pub fn get_previous_epa_owner(
        membership: &MembershipManager,
        namespace: &str,
        name: &str,
    ) -> (r: Option<String>)
        ensures
            is_owner(
                membership.active_set().union(membership.draining_set()),
                key_of(namespace@, name@),
                opt_view(r),
            ),
    {
        let key = epa_key(namespace, name);
        let replicas = membership.get_all_replicas();
        highest_weight_replica(&replicas, key.as_str())
    }

    /// Notes that this replica was found to be the owner of a resource, or not to
    /// be, and drops what was lost too long ago.
    pub fn note(&mut self, key: String, mine: bool, evaluation_period: u128, now: u64)
        ensures
            final(self)@ == old(self)@.refreshed(key@, mine, evaluation_period, now),
    {
        let ghost before = self@;
        let ghost k = key@;
        if mine {
            let held = match self.owned.get(key.as_str()) {
                Some(state) => state.since,
                None => now,
            };
            self.lost.remove(key.as_str());
            self.owned.insert(key, OwnershipState { since: held, evaluation_period });
        } else if self.owned.remove(key.as_str()).is_some() {
            if !self.lost.contains_key(key.as_str()) {
                self.lost.insert(key, LostOwnership { at: now, evaluation_period });
            }
        }
        let ghost lost = self.lost@;
        self.drop_expired(now);
        assert(!before.owned.contains_key(k) ==> before.owned.remove(k) =~= before.owned);
        assert(self@.lost == still_lost(lost, now));
    }

    fn drop_expired(&mut self, now: u64)
        ensures
            final(self)@.owned == old(self)@.owned,
            final(self)@.lost == still_lost(old(self)@.lost, now),
    {
        let ghost all = self.lost@;
        let n: usize = self.lost.len();
        let mut kept: NameMap<LostOwnership> = NameMap::new();
        let mut i: usize = 0;
        let ghost names = self.lost.listed();
        while i < n
            invariant
                n == names.len(),
                names == self.lost.listed(),
                names.no_duplicates(),
                all == self.lost@,
                self.owned@ == old(self)@.owned,
                i <= n,
                forall|k: Seq<char>| #[trigger]
                    kept@.contains_key(k) == (names.take(i as int).contains(k) && in_grace(
                        all[k],
                        now,
                    )),
                forall|k: Seq<char>| #[trigger] kept@.contains_key(k) ==> kept@[k] == all[k],
            decreases n - i,
        {
            let (name, entry) = self.lost.at(i);
            let age: u128 = since(now, entry.at) as u128;
            let ghost was = kept@;
            if age < GRACE_BUFFER || age - GRACE_BUFFER < entry.evaluation_period {
                kept.insert(name.clone(), *entry);
            }
            proof {
                let k = names[i as int];
                assert(names.take(i + 1) =~= names.take(i as int).push(k));
                assert forall|x: Seq<char>| #[trigger]
                    kept@.contains_key(x) == (names.take(i + 1).contains(x) && in_grace(
                        all[x],
                        now,
                    )) by {
                    crate::names::lemma_push_to_set(names.take(i as int), k);
                    assert(names.take(i as int).push(k).to_set().contains(x) == names.take(
                        i as int,
                    ).to_set().insert(k).contains(x));
                    assert(was.contains_key(x) == (names.take(i as int).contains(x) && in_grace(
                        all[x],
                        now,
                    )));
                }
            }
            i += 1;
        }
        proof {
            assert(names.take(i as int) =~= names);
            assert forall|k: Seq<char>|
                #![trigger kept@.dom().contains(k)]
                #![trigger still_lost(all, now).dom().contains(k)]
                kept@.dom().contains(k) == still_lost(all, now).dom().contains(k) by {
                assert(names.to_set().contains(k) == all.dom().contains(k));
                assert(kept@.contains_key(k) == (names.take(i as int).contains(k) && in_grace(
                    all[k],
                    now,
                )));
            }
            assert(kept@ =~= still_lost(all, now));
        }
        self.lost = kept;
    }

    /// Looks up the owner of a resource and notes whether it is this replica. To be
    /// called once in each tick, before `should_scrape_epa` and `should_serve_epa`.
    pub fn refresh_ownership(
        &mut self,
        membership: &MembershipManager,
        namespace: &str,
        name: &str,
        evaluation_period: u128,
        now: u64,
    )
        ensures
            exists|mine: bool| #[trigger]
                may_find(
                    membership.active_set(),
                    key_of(namespace@, name@),
                    membership.id(),
                    mine,
                ) && final(self)@ == old(self)@.refreshed(
                    key_of(namespace@, name@),
                    mine,
                    evaluation_period,
                    now,
                ),
    {
        let mine = Self::is_epa_owner(membership, namespace, name);
        self.note(epa_key(namespace, name), mine, evaluation_period, now);
    }

    /// Whether this replica collects the metrics of a resource: as its owner, or for
    /// a while after it lost it.
    pub fn should_scrape_epa(&self, namespace: &str, name: &str) -> (r: bool)
        ensures
            r == self@.scrapes(key_of(namespace@, name@)),
    {
        let key = epa_key(namespace, name);
        self.owned.contains_key(key.as_str()) || self.lost.contains_key(key.as_str())
    }

    /// Whether this replica answers for a resource, where `previous` would own it if
    /// the draining replicas still took part.
    pub fn may_serve(
        &self,
        key: &str,
        previous: &Option<String>,
        my_id: &str,
        now: u64,
    ) -> (r: bool)
        ensures
            r == self@.serves(key@, opt_view(*previous), my_id@, now),
    {
        match self.owned.get(key) {
            Some(state) => {
                if since(now, state.since) as u128 >= state.evaluation_period {
                    return true;
                }
                match previous {
                    Some(id) => same(id.as_str(), my_id),
                    None => true,
                }
            },
            None => self.lost.contains_key(key),
        }
    }

    /// Whether this replica answers for a resource.
    ///
    /// As the owner it does so once an evaluation period has passed, or at once
    /// where no other replica was the owner before and is still there: partial data
    /// is better than no data. After it lost the resource it does so for a while.
    pub fn should_serve_epa(
        &self,
        membership: &MembershipManager,
        namespace: &str,
        name: &str,
        now: u64,
    ) -> (r: bool)
        ensures
            exists|previous: Option<Seq<char>>| #[trigger]
                is_owner(
                    membership.active_set().union(membership.draining_set()),
                    key_of(namespace@, name@),
                    previous,
                ) && r == self@.serves(
                    key_of(namespace@, name@),
                    previous,
                    membership.id(),
                    now,
                ),
    {
        let key = epa_key(namespace, name);
        let previous = Self::get_previous_epa_owner(membership, namespace, name);
        let ghost found = opt_view(previous);
        assert(is_owner(
            membership.active_set().union(membership.draining_set()),
            key_of(namespace@, name@),
            found,
        ));
        self.may_serve(key.as_str(), &previous, membership.my_replica_id(), now)
    }
}

} // verus!
