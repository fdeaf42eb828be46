//! Assigning resources to replicas with the hasher of the standard library.

use crate::controller::membership::MembershipManager;
use crate::membership::ownership::{epa_key, heaviest, key_of};
use crate::text::{opt_view, same, views};
use std::collections::hash_map::DefaultHasher;
use std::hash::Hasher;
use std::sync::Arc;
use vstd::prelude::*;
use vstd::std_specs::hash::DefaultHasherAdditionalSpecFns;
use vstd::utf8::encode_utf8;

verus! {

/// The byte that ends a string where one is hashed.
pub const STRING_END: u8 = 0xff;

/// What is hashed of a replica and a resource: the bytes of the two, each followed by
/// the byte that ends a string.
pub open spec fn hashed(replica_id: Seq<char>, key: Seq<char>) -> Seq<Seq<u8>> {
    seq![encode_utf8(replica_id), seq![STRING_END], encode_utf8(key), seq![STRING_END]]
}

/// The weight of a replica for a resource.
pub open spec fn weight_of(replica_id: Seq<char>, key: Seq<char>) -> u64 {
    DefaultHasher::spec_finish(hashed(replica_id, key))
}

/// Whether a replica is of the set and no other of the set weighs more for a resource;
/// none where there is no replica.
pub open spec fn is_assigned(
    replicas: Set<Seq<char>>,
    key: Seq<char>,
    owner: Option<Seq<char>>,
) -> bool {
    match owner {
        Some(id) => replicas.contains(id) && forall|other: Seq<char>|
            replicas.contains(other) ==> #[trigger] weight_of(other, key) <= weight_of(id, key),
        None => forall|id: Seq<char>| !replicas.contains(id),
    }
}

/// Assigns EPA ownership using rendezvous hashing (Highest Random Weight)
///
/// This provides consistent hashing with minimal rebalancing when replicas change.
/// Each EPA is assigned to the replica with the highest hash(replica_id + epa_key).
#[derive(Debug)]
pub struct WorkAssigner {
    membership: Arc<MembershipManager>,
}

impl WorkAssigner {
    /// The replicas among which work is assigned.
    pub closed spec fn replicas(&self) -> Set<Seq<char>> {
        self.membership.active_set()
    }

    /// This replica's ID.
    pub closed spec fn id(&self) -> Seq<char> {
        self.membership.id()
    }

    /// Create new work assigner
    pub fn new(membership: Arc<MembershipManager>) -> (r: WorkAssigner)
        ensures
            r.replicas() == membership.active_set(),
            r.id() == membership.id(),
    {
        WorkAssigner { membership }
    }

    /// Check if this replica should handle the given EPA
    ///
    /// Uses rendezvous hashing to deterministically assign EPAs to replicas.
    /// All replicas will agree on ownership based on active replica set.
    ///
    /// # Arguments
    /// * `namespace` - EPA namespace
    /// * `name` - EPA name
    pub fn should_handle_epa(&self, namespace: &str, name: &str) -> (r: bool)
        ensures
            exists|owner: Option<Seq<char>>| #[trigger]
                is_assigned(self.replicas(), key_of(namespace@, name@), owner) && r == (owner
                    == Some(self.id())),
    {
        let key = epa_key(namespace, name);
        let owner = self.get_epa_owner(key.as_str());
        let ghost found = opt_view(owner);
        assert(is_assigned(self.replicas(), key_of(namespace@, name@), found));
        match owner {
            Some(id) => same(id.as_str(), self.membership.my_replica_id()),
            None => false,
        }
    }

    /// Get the replica ID that owns this EPA
    ///
    /// Returns None if no replicas are active.
    ///
    /// # Arguments
    /// * `epa_key` - EPA key in format "namespace/name"
    pub fn get_epa_owner(&self, epa_key: &str) -> (r: Option<String>)
        ensures
            is_assigned(self.replicas(), epa_key@, opt_view(r)),
    {
        let replicas = self.membership.get_active_replicas();
        let ghost ids = views(replicas@);
        let mut weights: Vec<u64> = Vec::new();
        let mut i: usize = 0;
        while i < replicas.len()
            invariant
                i <= replicas@.len(),
                ids == views(replicas@),
                weights@.len() == i,
                forall|k: int|
                    0 <= k < i ==> #[trigger] weights@[k] == weight_of(ids[k], epa_key@),
            decreases replicas.len() - i,
        {
            weights.push(Self::compute_weight(replicas[i].as_str(), epa_key));
            i += 1;
        }
        match heaviest(&weights) {
            Some(at) => {
                proof {
                    let id = ids[at as int];
                    assert(ids.to_set().contains(id));
                    assert forall|other: Seq<char>| self.replicas().contains(
                        other,
                    ) implies #[trigger] weight_of(other, epa_key@) <= weight_of(id, epa_key@) by {
                        assert(ids.to_set().contains(other));
                        let k = choose|k: int| 0 <= k < ids.len() && ids[k] == other;
                        assert(weights@[k] <= weights@[at as int]);
                    }
                }
                Some(replicas[at].clone())
            },
            None => {
                assert forall|id: Seq<char>| !self.replicas().contains(id) by {
                    assert(ids.to_set().contains(id) == self.replicas().contains(id));
                }
                None
            },
        }
    }

    /// Compute rendezvous hash weight for replica + EPA combination
    pub fn compute_weight(replica_id: &str, epa_key: &str) -> (r: u64)
        ensures
            r == weight_of(replica_id@, epa_key@),
    {
        let mut end: Vec<u8> = Vec::new();
        end.push(STRING_END);
        let mut hasher = DefaultHasher::new();
        hasher.write(replica_id.as_bytes());
        hasher.write(end.as_slice());
        hasher.write(epa_key.as_bytes());
        hasher.write(end.as_slice());
        proof {
            assert(end@ =~= seq![STRING_END]);
            assert(hasher@ =~= hashed(replica_id@, epa_key@));
        }
        hasher.finish()
    }
}

} // verus!
