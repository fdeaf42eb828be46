//! Replica membership by leases.
//!
//! Each replica holds a lease that names it and tells where it can be reached. From
//! the list of leases every replica sees which others are active and which are
//! draining.

use crate::k8s::{CallOutcome, Lease, LeaseSpec, ObjectMeta, OwnerReference};
use crate::labels::Labels;
use crate::names::NameSet;
use crate::number::{decimal, unsigned_text};
use crate::text::{after_prefix, opt_view, strip_prefix, text_result, views};
use vstd::prelude::*;
use vstd::string::StringExecFns;

verus! {

/// The longest duration of a lease that is honoured, in seconds.
pub const MAX_LEASE_SECONDS: i32 = 86400;

/// How long a lease is valid after its renewal, in seconds.
pub const LEASE_SECONDS: i32 = 30;

/// Microseconds in a second.
pub const MICROS: i64 = 1_000_000;

/// The name of a replica's lease.
pub open spec fn lease_name_of(replica_id: Seq<char>) -> Seq<char> {
    "epa-replica-"@ + replica_id
}

/// Whether a lease is valid at `now`: it was renewed less than its duration ago. A
/// duration below zero makes it invalid, one of more than a day counts as a day.
pub open spec fn lease_live(lease: Lease, now: i64) -> bool {
    match lease.spec {
        Some(spec) => match (spec.renew_time, spec.lease_duration_seconds) {
            (Some(renewed), Some(seconds)) => seconds >= 0 && now < renewed + MICROS * (if seconds
                <= MAX_LEASE_SECONDS {
                seconds as int
            } else {
                MAX_LEASE_SECONDS as int
            }),
            _ => false,
        },
        None => false,
    }
}

/// The replica that a lease belongs to, by its name.
pub open spec fn lease_replica(lease: Lease) -> Option<Seq<char>> {
    match lease.metadata.name {
        Some(name) => after_prefix(name@, "epa-replica-"@),
        None => None,
    }
}

/// Whether a lease is labelled as that of a draining replica.
pub open spec fn lease_draining(lease: Lease) -> bool {
    match lease.metadata.labels {
        Some(labels) => labels@.contains_key("draining"@) && labels@["draining"@] == "true"@,
        None => false,
    }
}

/// Whether a lease shows a replica as alive, draining or not.
pub open spec fn lease_shows(lease: Lease, now: i64, id: Seq<char>, draining: bool) -> bool {
    lease_live(lease, now) && lease_replica(lease) == Some(id) && lease_draining(lease) == draining
}

/// Whether some lease shows a replica as alive, draining or not.
pub open spec fn shown(leases: Seq<Lease>, now: i64, id: Seq<char>, draining: bool) -> bool {
    exists|i: int|
        0 <= i < leases.len() && lease_shows(#[trigger] leases[i], now, id, draining)
}

/// Whether no two of the leases have the same name.
pub open spec fn names_differ(leases: Seq<Lease>) -> bool {
    forall|i: int, j: int|
        0 <= i < j < leases.len() && (#[trigger] leases[i]).metadata.name is Some && (
        #[trigger] leases[j]).metadata.name is Some ==> leases[i].metadata.name->0@
            != leases[j].metadata.name->0@
}

/// Whether a lease is valid at `now`.
pub fn is_live(lease: &Lease, now: i64) -> (r: bool)
    ensures
        r == lease_live(*lease, now),
{
    match &lease.spec {
        Some(spec) => match (spec.renew_time, spec.lease_duration_seconds) {
            (Some(renewed), Some(seconds)) => {
                if seconds < 0 {
                    return false;
                }
                let clamped: i32 = if seconds <= MAX_LEASE_SECONDS {
                    seconds
                } else {
                    MAX_LEASE_SECONDS
                };
                let expires: i128 = renewed as i128 + MICROS as i128 * clamped as i128;
                (now as i128) < expires
            },
            _ => false,
        },
        None => false,
    }
}

/// Whether a lease is labelled as that of a draining replica.
pub fn is_draining(lease: &Lease) -> (r: bool)
    ensures
        r == lease_draining(*lease),
{
    match &lease.metadata.labels {
        Some(labels) => labels.has("draining", "true"),
        None => false,
    }
}

/// What is left to do once the creation of a lease was tried.
#[derive(Debug, Clone, Copy, PartialEq, Eq, Structural)]
pub enum RenewStep {
    /// The lease was created.
    Created,
    /// The lease is there already: renew it by a patch.
    Patch,
    /// The attempt failed.
    Fail,
}

/// What follows the attempt to create this replica's lease.
pub fn after_create(outcome: CallOutcome) -> (r: RenewStep)
    ensures
        r == (match outcome {
            CallOutcome::Done => RenewStep::Created,
            CallOutcome::Refused(code) => if code == 409 {
                RenewStep::Patch
            } else {
                RenewStep::Fail
            },
            CallOutcome::Failed => RenewStep::Fail,
        }),
{
    match outcome {
        CallOutcome::Done => RenewStep::Created,
        CallOutcome::Refused(code) => {
            if code == 409 {
                RenewStep::Patch
            } else {
                RenewStep::Fail
            }
        },
        CallOutcome::Failed => RenewStep::Fail,
    }
}

/// Whether the deletion of a lease succeeded: it is gone, or was not there.
pub fn deleted(outcome: CallOutcome) -> (r: bool)
    ensures
        r == (outcome == CallOutcome::Done || outcome == CallOutcome::Refused(404)),
{
    match outcome {
        CallOutcome::Done => true,
        CallOutcome::Refused(code) => code == 404,
        CallOutcome::Failed => false,
    }
}

/// A replica's own identity and its view of the others.
#[derive(Debug)]
pub struct MembershipManager {
    my_replica_id: String,
    my_pod_ip: String,
    my_pod_name: String,
    namespace: String,
    webhook_port: u16,
    active: NameSet,
    draining: NameSet,
    local_draining: bool,
}

impl MembershipManager {
    /// This replica's ID.
    pub closed spec fn id(&self) -> Seq<char> {
        self.my_replica_id@
    }

    /// The address of this replica's pod.
    pub closed spec fn pod_ip(&self) -> Seq<char> {
        self.my_pod_ip@
    }

    /// The name of this replica's pod.
    pub closed spec fn pod_name(&self) -> Seq<char> {
        self.my_pod_name@
    }

    /// The namespace that this replica runs in.
    pub closed spec fn home(&self) -> Seq<char> {
        self.namespace@
    }

    /// The port that this replica's webhook server listens on.
    pub closed spec fn port(&self) -> u16 {
        self.webhook_port
    }

    /// The replicas that take part in the assignment of work.
    pub closed spec fn active_set(&self) -> Set<Seq<char>> {
        self.active@
    }

    /// The replicas that are about to leave.
    pub closed spec fn draining_set(&self) -> Set<Seq<char>> {
        self.draining@
    }

    /// Whether this replica is about to leave.
    pub closed spec fn leaving(&self) -> bool {
        self.local_draining
    }

    /// Whether this and another value tell of one replica in one place.
    pub open spec fn same_replica(&self, other: &MembershipManager) -> bool {
        &&& self.id() == other.id()
        &&& self.pod_ip() == other.pod_ip()
        &&& self.pod_name() == other.pod_name()
        &&& self.home() == other.home()
        &&& self.port() == other.port()
    }

    /// Creates the membership of a replica that has not seen any other.
    ///
    /// The replica's ID is the UID of its pod.
    pub fn new(
        my_replica_id: String,
        my_pod_ip: String,
        my_pod_name: String,
        namespace: String,
        webhook_port: u16,
    ) -> (r: MembershipManager)
        ensures
            r.id() == my_replica_id@,
            r.pod_ip() == my_pod_ip@,
            r.pod_name() == my_pod_name@,
            r.home() == namespace@,
            r.port() == webhook_port,
            r.active_set() == Set::<Seq<char>>::empty(),
            r.draining_set() == Set::<Seq<char>>::empty(),
            !r.leaving(),
    {
        MembershipManager {
            my_replica_id,
            my_pod_ip,
            my_pod_name,
            namespace,
            webhook_port,
            active: NameSet::new(),
            draining: NameSet::new(),
            local_draining: false,
        }
    }

    /// This replica's ID.
    pub fn my_replica_id(&self) -> (r: &str)
        ensures
            r@ == self.id(),
    {
        self.my_replica_id.as_str()
    }

    /// The namespace that this replica's lease stands in.
    pub fn namespace(&self) -> (r: &str)
        ensures
            r@ == self.home(),
    {
        self.namespace.as_str()
    }

    /// The name of this replica's lease.
    pub fn lease_name(&self) -> (r: String)
        ensures
            r@ == lease_name_of(self.id()),
    {
        name_lease(self.my_replica_id.as_str())
    }

    /// Whether `lease` is what this replica registers itself with at `now`.
    pub open spec fn registers(&self, lease: Lease, now: i64) -> bool {
        &&& opt_view(lease.metadata.name) == Some(lease_name_of(self.id()))
        &&& opt_view(lease.metadata.namespace) == Some(self.home())
        &&& lease.metadata.generate_name is None
        &&& lease.metadata.uid is None
        &&& lease.metadata.resource_version is None
        &&& lease.metadata.deletion_timestamp is None
        &&& lease.metadata.labels matches Some(labels) && labels@ == self.lease_labels()
        &&& lease.metadata.owner_references matches Some(refs) && refs@.len() == 1 && self.owned_by(
            refs@[0],
        )
        &&& lease.spec matches Some(spec) && {
            &&& opt_view(spec.holder_identity) == Some(
                self.pod_ip() + ":"@ + decimal(self.port() as nat),
            )
            &&& spec.lease_duration_seconds == Some(LEASE_SECONDS)
            &&& spec.renew_time == Some(now)
            &&& spec.acquire_time == Some(now)
        }
    }

    /// The labels of this replica's lease.
    pub open spec fn lease_labels(&self) -> Map<Seq<char>, Seq<char>> {
        let base = map!["app"@ => "external-pod-autoscaler"@, "replica-id"@ => self.id()];
        if self.leaving() {
            base.insert("draining"@, "true"@)
        } else {
            base
        }
    }

    /// Whether a reference names this replica's pod as the owner.
    pub open spec fn owned_by(&self, owner: OwnerReference) -> bool {
        &&& owner.api_version@ == "v1"@
        &&& owner.kind@ == "Pod"@
        &&& owner.name@ == self.pod_name()
        &&& owner.uid@ == self.id()
        &&& owner.controller is None
        &&& owner.block_owner_deletion is None
    }

    /// The lease that this replica registers itself with, or renews.
    ///
    /// It belongs to the replica's pod, so that it goes when the pod goes, and tells
    /// other replicas where to forward requests to.
    pub fn lease(&self, now: i64) -> (lease: Lease)
        ensures
            self.registers(lease, now),
    {
        let mut holder = self.my_pod_ip.clone();
        holder.append(":");
        holder.append(unsigned_text(self.webhook_port as u128).as_str());

        let mut labels = Labels::new();
        labels.insert("app".to_owned(), "external-pod-autoscaler".to_owned());
        labels.insert("replica-id".to_owned(), self.my_replica_id.clone());
        if self.local_draining {
            labels.insert("draining".to_owned(), "true".to_owned());
        }
        assert(labels@ =~= self.lease_labels());

        let owner = OwnerReference {
            api_version: "v1".to_owned(),
            kind: "Pod".to_owned(),
            name: self.my_pod_name.clone(),
            uid: self.my_replica_id.clone(),
            controller: None,
            block_owner_deletion: None,
        };
        let mut owners: Vec<OwnerReference> = Vec::new();
        owners.push(owner);

        Lease {
            metadata: ObjectMeta {
                name: Some(self.lease_name()),
                generate_name: None,
                namespace: Some(self.namespace.clone()),
                uid: None,
                resource_version: None,
                labels: Some(labels),
                owner_references: Some(owners),
                deletion_timestamp: None,
            },
            spec: Some(
                LeaseSpec {
                    holder_identity: Some(holder),
                    lease_duration_seconds: Some(LEASE_SECONDS),
                    renew_time: Some(now),
                    acquire_time: Some(now),
                },
            ),
        }
    }

    /// Takes over which replicas the leases show, at `now`.
    ///
    /// A replica that is about to leave counts itself as draining, whatever its lease
    /// says: the label may not have reached the server yet.
    pub fn update_active_replicas(&mut self, leases: &Vec<Lease>, now: i64)
        ensures
            final(self).same_replica(old(self)),
            final(self).leaving() == old(self).leaving(),
            forall|id: Seq<char>| #[trigger]
                final(self).active_set().contains(id) == (shown(leases@, now, id, false) && !(
                old(self).leaving() && id == old(self).id())),
            forall|id: Seq<char>| #[trigger]
                final(self).draining_set().contains(id) == (shown(leases@, now, id, true) || (
                old(self).leaving() && id == old(self).id())),
    {
        let mut active = NameSet::new();
        let mut draining = NameSet::new();
        let mut i: usize = 0;
        while i < leases.len()
            invariant
                i <= leases@.len(),
                forall|id: Seq<char>| #[trigger]
                    active@.contains(id) == shown(leases@.take(i as int), now, id, false),
                forall|id: Seq<char>| #[trigger]
                    draining@.contains(id) == shown(leases@.take(i as int), now, id, true),
            decreases leases.len() - i,
        {
            let lease = &leases[i];
            let ghost was_active = active@;
            let ghost was_draining = draining@;
            if is_live(lease, now) {
                if let Some(name) = &lease.metadata.name {
                    if let Some(id) = strip_prefix(name.as_str(), "epa-replica-") {
                        if is_draining(lease) {
                            draining.insert(id.to_owned());
                        } else {
                            active.insert(id.to_owned());
                        }
                    }
                }
            }
            proof {
                lemma_shown_next(leases@, i as int, now);
            }
            i += 1;
        }
        assert(leases@.take(i as int) =~= leases@);

        if self.local_draining {
            active.remove(self.my_replica_id.as_str());
            draining.insert(self.my_replica_id.clone());
        }
        self.active = active;
        self.draining = draining;
    }

    /// The IDs of the active replicas.
    pub fn get_active_replicas(&self) -> (r: Vec<String>)
        ensures
            views(r@).to_set() == self.active_set(),
            views(r@).no_duplicates(),
    {
        self.active.list()
    }

    /// The IDs of the draining replicas.
    pub fn get_draining_replicas(&self) -> (r: Vec<String>)
        ensures
            views(r@).to_set() == self.draining_set(),
            views(r@).no_duplicates(),
    {
        self.draining.list()
    }

    /// The IDs of the active and of the draining replicas, each once.
    pub fn get_all_replicas(&self) -> (r: Vec<String>)
        ensures
            views(r@).to_set() == self.active_set().union(self.draining_set()),
            views(r@).no_duplicates(),
    {
        let mut all = self.active.clone();
        let n: usize = self.draining.len();
        let mut i: usize = 0;
        assert(self.draining.listed().take(0).to_set() =~= Set::<Seq<char>>::empty());
        while i < n
            invariant
                n == self.draining.listed().len(),
                i <= n,
                all@ == self.active@.union(self.draining.listed().take(i as int).to_set()),
            decreases n - i,
        {
            let name = self.draining.at(i);
            all.insert(name.clone());
            proof {
                let d = self.draining.listed();
                assert(d.take(i + 1) =~= d.take(i as int).push(d[i as int]));
                crate::names::lemma_push_to_set(d.take(i as int), d[i as int]);
            }
            assert(all@ =~= self.active@.union(self.draining.listed().take(i + 1).to_set()));
            i += 1;
        }
        assert(self.draining.listed().take(i as int) =~= self.draining.listed());
        all.list()
    }

    /// Marks this replica as about to leave: from now on its lease says so.
    pub fn mark_draining(&mut self)
        ensures
            final(self).same_replica(old(self)),
            final(self).leaving(),
            final(self).active_set() == old(self).active_set(),
            final(self).draining_set() == old(self).draining_set(),
    {
        self.local_draining = true;
    }
}

/// The name of a replica's lease.
pub fn name_lease(replica_id: &str) -> (r: String)
    ensures
        r@ == lease_name_of(replica_id@),
{
    let mut r = "epa-replica-".to_owned();
    r.append(replica_id);
    r
}

/// Where a replica can be reached, given its lease or why that could not be read.
pub open spec fn address_in(
    replica_id: Seq<char>,
    fetched: Result<Lease, String>,
) -> Result<Seq<char>, Seq<char>> {
    match fetched {
        Ok(lease) => match lease.spec {
            Some(LeaseSpec { holder_identity: Some(address), .. }) => Ok(address@),
            _ => Err("Lease "@ + lease_name_of(replica_id) + " missing holder identity"@),
        },
        Err(reason) => Err("Failed to get lease for replica "@ + replica_id + ": "@ + reason@),
    }
}

/// Where a replica can be reached, given its lease or why that could not be read.
pub fn get_replica_address(replica_id: &str, fetched: Result<Lease, String>) -> (r: Result<
    String,
    String,
>)
    ensures
        text_result(r) == address_in(replica_id@, fetched),
{
    match fetched {
        Ok(lease) => {
            if let Some(spec) = lease.spec {
                if let Some(address) = spec.holder_identity {
                    return Ok(address);
                }
            }
            let mut m = "Lease ".to_owned();
            m.append(name_lease(replica_id).as_str());
            m.append(" missing holder identity");
            Err(m)
        },
        Err(reason) => {
            let mut m = "Failed to get lease for replica ".to_owned();
            m.append(replica_id);
            m.append(": ");
            m.append(reason.as_str());
            Err(m)
        },
    }
}

proof fn lemma_shown_next(leases: Seq<Lease>, i: int, now: i64)
    requires
        0 <= i < leases.len(),
    ensures
        forall|id: Seq<char>, d: bool| #[trigger]
            shown(leases.take(i + 1), now, id, d) == (shown(leases.take(i), now, id, d)
                || lease_shows(leases[i], now, id, d)),
{
    let a = leases.take(i);
    let b = leases.take(i + 1);
    assert forall|id: Seq<char>, d: bool| #[trigger]
        shown(b, now, id, d) == (shown(a, now, id, d) || lease_shows(leases[i], now, id, d)) by {
        if shown(a, now, id, d) {
            let k = choose|k: int| 0 <= k < a.len() && lease_shows(#[trigger] a[k], now, id, d);
            assert(b[k] == a[k]);
        }
        if lease_shows(leases[i], now, id, d) {
            assert(b[i] == leases[i]);
        }
        if shown(b, now, id, d) {
            let k = choose|k: int| 0 <= k < b.len() && lease_shows(#[trigger] b[k], now, id, d);
            if k < i {
                assert(a[k] == b[k]);
            }
        }
    }
}

} // verus!
