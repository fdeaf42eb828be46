//! Membership without draining: a replica is active or it is not there.

use crate::k8s::{Lease, LeaseSpec, ObjectMeta};
use crate::labels::Labels;
use crate::membership::manager::{
    lease_name_of, lease_replica, name_lease, LEASE_SECONDS, MICROS,
};
use crate::names::NameSet;
use crate::number::{decimal, unsigned_text};
use crate::text::{opt_view, strip_prefix, views};
use vstd::prelude::*;
use vstd::string::StringExecFns;

verus! {

/// Whether a lease is valid at `now`: it was renewed less than its duration ago.
pub open spec fn unexpired(lease: Lease, now: i64) -> bool {
    match lease.spec {
        Some(spec) => match (spec.renew_time, spec.lease_duration_seconds) {
            (Some(renewed), Some(seconds)) => now < renewed + MICROS * seconds,
            _ => false,
        },
        None => false,
    }
}

/// Whether some lease shows a replica as active.
pub open spec fn active_in(leases: Seq<Lease>, now: i64, id: Seq<char>) -> bool {
    exists|i: int|
        0 <= i < leases.len() && unexpired(#[trigger] leases[i], now) && lease_replica(leases[i])
            == Some(id)
}

fn is_unexpired(lease: &Lease, now: i64) -> (r: bool)
    ensures
        r == unexpired(*lease, now),
{
    match &lease.spec {
        Some(spec) => match (spec.renew_time, spec.lease_duration_seconds) {
            (Some(renewed), Some(seconds)) => (now as i128) < renewed as i128 + MICROS as i128
                * seconds as i128,
            _ => false,
        },
        None => false,
    }
}

/// Manages replica membership using Kubernetes Lease API
///
/// Each replica creates a Lease with its pod IP in holderIdentity.
/// Watches all leases to maintain view of active replicas.
#[derive(Debug)]
pub struct MembershipManager {
    my_replica_id: String,
    my_pod_ip: String,
    my_pod_name: String,
    namespace: String,
    webhook_port: u16,
    active_replicas: NameSet,
}

impl MembershipManager {
    /// This replica's ID.
    pub closed spec fn id(&self) -> Seq<char> {
        self.my_replica_id@
    }

    /// The address of this replica's pod.
    pub closed spec fn pod_ip(&self) -> Seq<char> {
        self.my_pod_ip@
    }

    /// The name of this replica's pod.
    pub closed spec fn pod_name(&self) -> Seq<char> {
        self.my_pod_name@
    }

    /// The namespace that this replica runs in.
    pub closed spec fn home(&self) -> Seq<char> {
        self.namespace@
    }

    /// The port that this replica's webhook server listens on.
    pub closed spec fn port(&self) -> u16 {
        self.webhook_port
    }

    /// The replicas that take part in the assignment of work.
    pub closed spec fn active_set(&self) -> Set<Seq<char>> {
        self.active_replicas@
    }

    /// Create new membership manager
    ///
    /// # Arguments
    /// * `my_replica_id` - Unique ID for this replica (POD_UID)
    /// * `my_pod_ip` - IP address of this pod (POD_IP)
    /// * `my_pod_name` - Name of this pod (POD_NAME)
    /// * `namespace` - Namespace this replica runs in (POD_NAMESPACE)
    /// * `webhook_port` - Port the webhook server listens on
    pub fn new(
        my_replica_id: String,
        my_pod_ip: String,
        my_pod_name: String,
        namespace: String,
        webhook_port: u16,
    ) -> (r: MembershipManager)
        ensures
            r.id() == my_replica_id@,
            r.pod_ip() == my_pod_ip@,
            r.pod_name() == my_pod_name@,
            r.home() == namespace@,
            r.port() == webhook_port,
            r.active_set() == Set::<Seq<char>>::empty(),
    {
        MembershipManager {
            my_replica_id,
            my_pod_ip,
            my_pod_name,
            namespace,
            webhook_port,
            active_replicas: NameSet::new(),
        }
    }

    /// Whether `lease` is what this replica registers itself with at `now`.
    pub open spec fn registers(&self, lease: Lease, now: i64) -> bool {
        &&& opt_view(lease.metadata.name) == Some(lease_name_of(self.id()))
        &&& opt_view(lease.metadata.namespace) == Some(self.home())
        &&& lease.metadata.generate_name is None
        &&& lease.metadata.uid is None
        &&& lease.metadata.resource_version is None
        &&& lease.metadata.owner_references is None
        &&& lease.metadata.deletion_timestamp is None
        &&& lease.metadata.labels matches Some(labels) && labels@
            == map!["app"@ => "external-pod-autoscaler"@, "replica-id"@ => self.id()]
        &&& lease.spec matches Some(spec) && {
            &&& opt_view(spec.holder_identity) == Some(
                self.pod_ip() + ":"@ + decimal(self.port() as nat),
            )
            &&& spec.lease_duration_seconds == Some(LEASE_SECONDS)
            &&& spec.renew_time == Some(now)
            &&& spec.acquire_time == Some(now)
        }
    }

    /// The lease that this replica registers itself with, or renews.
    pub fn lease(&self, now: i64) -> (lease: Lease)
        ensures
            self.registers(lease, now),
    {
        let mut holder = self.my_pod_ip.clone();
        holder.append(":");
        holder.append(unsigned_text(self.webhook_port as u128).as_str());
        let mut labels = Labels::new();
        labels.insert("app".to_owned(), "external-pod-autoscaler".to_owned());
        labels.insert("replica-id".to_owned(), self.my_replica_id.clone());
        assert(labels@
            =~= map!["app"@ => "external-pod-autoscaler"@, "replica-id"@ => self.id()]);
        let mut metadata = ObjectMeta::empty();
        metadata.name = Some(name_lease(self.my_replica_id.as_str()));
        metadata.namespace = Some(self.namespace.clone());
        metadata.labels = Some(labels);
        Lease {
            metadata,
            spec: Some(
                LeaseSpec {
                    holder_identity: Some(holder),
                    lease_duration_seconds: Some(LEASE_SECONDS),
                    renew_time: Some(now),
                    acquire_time: Some(now),
                },
            ),
        }
    }

    /// Update active replicas list from current leases
    pub fn update_active_replicas(&mut self, leases: &Vec<Lease>, now: i64)
        ensures
            final(self).id() == old(self).id(),
            final(self).pod_ip() == old(self).pod_ip(),
            final(self).pod_name() == old(self).pod_name(),
            final(self).home() == old(self).home(),
            final(self).port() == old(self).port(),
            forall|id: Seq<char>| #[trigger]
                final(self).active_set().contains(id) == active_in(leases@, now, id),
    {
        let mut active = NameSet::new();
        let mut i: usize = 0;
        while i < leases.len()
            invariant
                i <= leases@.len(),
                forall|id: Seq<char>| #[trigger]
                    active@.contains(id) == active_in(leases@.take(i as int), now, id),
            decreases leases.len() - i,
        {
            let lease = &leases[i];
            if is_unexpired(lease, now) {
                if let Some(name) = &lease.metadata.name {
                    if let Some(id) = strip_prefix(name.as_str(), "epa-replica-") {
                        active.insert(id.to_owned());
                    }
                }
            }
            proof {
                lemma_active_next(leases@, i as int, now);
            }
            i += 1;
        }
        assert(leases@.take(i as int) =~= leases@);
        self.active_replicas = active;
    }

    /// Get list of all active replica IDs
    pub fn get_active_replicas(&self) -> (r: Vec<String>)
        ensures
            views(r@).no_duplicates(),
            views(r@).to_set() == self.active_set(),
    {
        self.active_replicas.list()
    }

    /// Get this replica's ID
    pub fn my_replica_id(&self) -> (r: &str)
        ensures
            r@ == self.id(),
    {
        self.my_replica_id.as_str()
    }
}

proof fn lemma_active_next(leases: Seq<Lease>, i: int, now: i64)
    requires
        0 <= i < leases.len(),
    ensures
        forall|id: Seq<char>| #[trigger]
            active_in(leases.take(i + 1), now, id) == (active_in(leases.take(i), now, id) || (
            unexpired(leases[i], now) && lease_replica(leases[i]) == Some(id))),
{
    let a = leases.take(i);
    let b = leases.take(i + 1);
    assert forall|id: Seq<char>| #[trigger]
        active_in(b, now, id) == (active_in(a, now, id) || (unexpired(leases[i], now)
            && lease_replica(leases[i]) == Some(id))) by {
        if active_in(a, now, id) {
            let k = choose|k: int|
                0 <= k < a.len() && unexpired(#[trigger] a[k], now) && lease_replica(a[k]) == Some(
                    id,
                );
            assert(b[k] == a[k]);
        }
        if active_in(b, now, id) {
            let k = choose|k: int|
                0 <= k < b.len() && unexpired(#[trigger] b[k], now) && lease_replica(b[k]) == Some(
                    id,
                );
            if k < i {
                assert(a[k] == b[k]);
            }
        }
        assert(b[i] == leases[i]);
    }
}

} // verus!
