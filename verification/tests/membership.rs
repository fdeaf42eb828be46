use external_pod_autoscaler::controller::membership::MembershipManager as PlainManager;
use external_pod_autoscaler::k8s::{CallOutcome, Lease, LeaseSpec, ObjectMeta};
use external_pod_autoscaler::labels::Labels;
use external_pod_autoscaler::membership::manager::{
    after_create, deleted, get_replica_address, is_draining, is_live, name_lease,
    MembershipManager, RenewStep,
};

const SECOND: i64 = 1_000_000;
const NOW: i64 = 1_700_000_000 * SECOND;

/// The leases of a namespace, as an API server holds them.
struct Server {
    leases: Vec<Lease>,
}

impl Server {
    fn place(&self, name: &str) -> Option<usize> {
        self.leases.iter().position(|l| l.metadata.name.as_deref() == Some(name))
    }

    fn get(&self, name: &str) -> Result<Lease, String> {
        match self.place(name) {
            Some(i) => Ok(self.leases[i].clone()),
            None => Err("not found".to_string()),
        }
    }

    fn create(&mut self, lease: Lease) -> CallOutcome {
        if self.place(lease.metadata.name.as_deref().unwrap()).is_some() {
            return CallOutcome::Refused(409);
        }
        self.leases.push(lease);
        CallOutcome::Done
    }

    fn apply(&mut self, lease: Lease) {
        let i = self.place(lease.metadata.name.as_deref().unwrap()).unwrap();
        self.leases[i] = lease;
    }

    fn delete(&mut self, name: &str) -> CallOutcome {
        match self.place(name) {
            Some(i) => {
                self.leases.remove(i);
                CallOutcome::Done
            }
            None => CallOutcome::Refused(404),
        }
    }

    /// Creates or updates a lease.
    fn register(&mut self, lease: Lease) -> bool {
        match after_create(self.create(lease.clone())) {
            RenewStep::Created => true,
            RenewStep::Patch => {
                self.apply(lease);
                true
            }
            RenewStep::Fail => false,
        }
    }
}

fn make_lease(name: &str, namespace: &str, holder: &str, renewed: i64, seconds: i32) -> Lease {
    let mut labels = Labels::new();
    labels.insert("app".to_string(), "external-pod-autoscaler".to_string());
    let mut metadata = ObjectMeta::empty();
    metadata.name = Some(name.to_string());
    metadata.namespace = Some(namespace.to_string());
    metadata.labels = Some(labels);
    Lease {
        metadata,
        spec: Some(LeaseSpec {
            holder_identity: Some(holder.to_string()),
            lease_duration_seconds: Some(seconds),
            renew_time: Some(renewed),
            acquire_time: Some(renewed),
        }),
    }
}

fn make_draining_lease(name: &str, namespace: &str, holder: &str, renewed: i64, s: i32) -> Lease {
    let mut lease = make_lease(name, namespace, holder, renewed, s);
    let mut labels = lease.metadata.labels.clone().unwrap();
    labels.insert("draining".to_string(), "true".to_string());
    lease.metadata.labels = Some(labels);
    lease
}

fn manager(id: &str, ip: &str, pod: &str) -> MembershipManager {
    MembershipManager::new(
        id.to_string(),
        ip.to_string(),
        pod.to_string(),
        "test-ns".to_string(),
        8443,
    )
}

fn plain_manager(id: &str, ip: &str, pod: &str) -> PlainManager {
    PlainManager::new(
        id.to_string(),
        ip.to_string(),
        pod.to_string(),
        "test-ns".to_string(),
        8443,
    )
}

fn check_created(lease: &Lease, replica_id: &str, pod_ip: &str) {
    let labels = lease.metadata.labels.as_ref().expect("lease should have labels");
    assert_eq!(
        labels.get("app").map(String::as_str),
        Some("external-pod-autoscaler"),
        "lease should have app=external-pod-autoscaler label"
    );
    assert_eq!(
        labels.get("replica-id").map(String::as_str),
        Some(replica_id),
        "lease should carry the replica-id label"
    );
    let spec = lease.spec.as_ref().expect("lease should have spec");
    let expected_identity = format!("{}:{}", pod_ip, 8443);
    assert_eq!(
        spec.holder_identity.as_deref(),
        Some(expected_identity.as_str()),
        "holderIdentity should be pod_ip:webhook_port"
    );
    assert_eq!(
        spec.lease_duration_seconds,
        Some(30),
        "lease_duration_seconds should be 30"
    );
    assert!(spec.renew_time.is_some(), "renew_time should be set after registration");
}

#[test]
fn manager_test_register_creates_lease() {
    let mut server = Server { leases: vec![] };
    let m = manager("replica-abc", "10.0.0.1", "epa-pod-abc");
    assert!(server.register(m.lease(NOW)));
    let lease = server.get("epa-replica-replica-abc").unwrap();
    check_created(&lease, "replica-abc", "10.0.0.1");
    let owner = &lease.metadata.owner_references.as_ref().unwrap()[0];
    assert_eq!(owner.kind, "Pod");
    assert_eq!(owner.name, "epa-pod-abc");
    assert_eq!(owner.uid, "replica-abc");
}

#[test]
fn membership_test_register_creates_lease() {
    let mut server = Server { leases: vec![] };
    let m = plain_manager("replica-abc", "10.0.0.1", "epa-pod-abc");
    assert!(server.register(m.lease(NOW)));
    let lease = server.get("epa-replica-replica-abc").unwrap();
    check_created(&lease, "replica-abc", "10.0.0.1");
    assert!(lease.metadata.owner_references.is_none());
}

fn check_renewed(fresh: Lease) {
    let name = "epa-replica-replica-xyz";
    let old_time = NOW - 60 * SECOND;
    let mut server = Server {
        leases: vec![make_lease(name, "test-ns", "10.0.0.2:8443", old_time, 30)],
    };

    // Must not fail — should fall through to the patch (409) branch.
    assert!(server.register(fresh));

    // The lease should still exist after the renewal.
    let lease = server.get(name).unwrap();
    let spec = lease.spec.as_ref().expect("lease should have spec after renewal");
    assert_eq!(
        spec.holder_identity.as_deref(),
        Some("10.0.0.2:8443"),
        "holderIdentity should be preserved after renewal"
    );
    let renewed_at = spec.renew_time.expect("renew_time should be set after renewal");
    assert!(
        renewed_at > old_time,
        "renew_time should be newer than the original timestamp"
    );
}

#[test]
fn manager_test_register_renews_existing_lease() {
    check_renewed(manager("replica-xyz", "10.0.0.2", "epa-pod-xyz").lease(NOW));
}

#[test]
fn membership_test_register_renews_existing_lease() {
    check_renewed(plain_manager("replica-xyz", "10.0.0.2", "epa-pod-xyz").lease(NOW));
}

fn check_address() {
    let expected_address = "192.168.1.5:8443";
    let server = Server {
        leases: vec![make_lease(
            "epa-replica-replica-999",
            "test-ns",
            expected_address,
            NOW,
            30,
        )],
    };
    let address =
        get_replica_address("replica-999", server.get(&name_lease("replica-999"))).unwrap();
    assert_eq!(
        address, expected_address,
        "get_replica_address should return the holderIdentity from the lease"
    );
}

#[test]
fn manager_test_get_replica_address_returns_holder_identity() {
    check_address();
}

#[test]
fn membership_test_get_replica_address_returns_holder_identity() {
    check_address();
}

fn check_missing_address() {
    let server = Server { leases: vec![] };
    let id = "nonexistent-replica";
    let result = get_replica_address(id, server.get(&name_lease(id)));
    assert!(
        result.is_err(),
        "get_replica_address should return an error when no lease exists for the replica"
    );
    assert_eq!(
        result.unwrap_err(),
        "Failed to get lease for replica nonexistent-replica: not found"
    );
}

#[test]
fn manager_test_get_replica_address_missing_returns_error() {
    check_missing_address();
}

#[test]
fn membership_test_get_replica_address_missing_returns_error() {
    check_missing_address();
}

#[test]
fn a_lease_without_holder_has_no_address() {
    let mut lease = make_lease("epa-replica-x", "test-ns", "", NOW, 30);
    lease.spec.as_mut().unwrap().holder_identity = None;
    assert_eq!(
        get_replica_address("x", Ok(lease)).unwrap_err(),
        "Lease epa-replica-x missing holder identity"
    );
}

fn one_valid_one_expired() -> Vec<Lease> {
    vec![
        // expires at now+25s
        make_lease("epa-replica-replica-valid", "test-ns", "10.0.0.10:8443", NOW - 5 * SECOND, 30),
        // expired 90s ago
        make_lease(
            "epa-replica-replica-expired",
            "test-ns",
            "10.0.0.20:8443",
            NOW - 120 * SECOND,
            30,
        ),
    ]
}

fn check_only_valid(active: Vec<String>) {
    assert!(
        active.contains(&"replica-valid".to_string()),
        "non-expired replica should be in the active set; got: {:?}",
        active
    );
    assert!(
        !active.contains(&"replica-expired".to_string()),
        "expired replica should not be in the active set; got: {:?}",
        active
    );
    assert_eq!(active.len(), 1, "exactly one replica should be active; got: {:?}", active);
}

#[test]
fn manager_test_update_active_replicas_filters_expired() {
    let mut m = manager("self-replica", "10.0.0.1", "epa-pod-self");
    m.update_active_replicas(&one_valid_one_expired(), NOW);
    check_only_valid(m.get_active_replicas());
}

#[test]
fn membership_test_update_active_replicas_filters_expired() {
    let mut m = plain_manager("self-replica", "10.0.0.1", "epa-pod-self");
    m.update_active_replicas(&one_valid_one_expired(), NOW);
    check_only_valid(m.get_active_replicas());
}

// update_active_replicas classifies draining-labelled leases into the draining
// set and excludes them from the active set.
#[test]
fn update_active_replicas_separates_draining() {
    let active_id = "replica-active";
    let draining_id = "replica-draining";
    let leases = vec![
        make_lease("epa-replica-replica-active", "test-ns", "10.0.0.1:8443", NOW, 30),
        make_draining_lease("epa-replica-replica-draining", "test-ns", "10.0.0.2:8443", NOW, 30),
    ];
    let mut m = manager("self-replica", "10.0.0.99", "epa-pod-self");
    m.update_active_replicas(&leases, NOW);

    let active = m.get_active_replicas();
    let draining = m.get_draining_replicas();

    assert!(
        active.contains(&active_id.to_string()),
        "active replica should be in the active set; got: {:?}",
        active
    );
    assert!(
        !active.contains(&draining_id.to_string()),
        "draining replica should NOT be in the active set; got: {:?}",
        active
    );
    assert!(
        draining.contains(&draining_id.to_string()),
        "draining replica should be in the draining set; got: {:?}",
        draining
    );
    assert!(
        !draining.contains(&active_id.to_string()),
        "active replica should NOT be in the draining set; got: {:?}",
        draining
    );
}

// mark_draining sets the draining label on the lease.
#[test]
fn mark_draining_applies_label_to_lease() {
    let mut server = Server { leases: vec![] };
    let mut m = manager("replica-drain", "10.0.0.1", "epa-pod-drain");

    // Create the lease first
    assert!(server.register(m.lease(NOW)));

    // Mark as draining
    m.mark_draining();
    assert!(server.register(m.lease(NOW)));

    // Verify the lease has the draining label
    let lease = server.get("epa-replica-replica-drain").unwrap();
    let labels = lease.metadata.labels.as_ref().expect("lease should have labels");
    assert_eq!(
        labels.get("draining").map(String::as_str),
        Some("true"),
        "lease should have draining=true label after mark_draining"
    );
}

// delete_lease removes the lease from Kubernetes.
#[test]
fn delete_lease_removes_lease() {
    let m = manager("replica-del", "10.0.0.1", "epa-pod-del");
    let mut server = Server {
        leases: vec![make_lease(
            "epa-replica-replica-del",
            "test-ns",
            "10.0.0.1:8443",
            NOW,
            30,
        )],
    };
    assert!(deleted(server.delete(&m.lease_name())));
    server.get("epa-replica-replica-del").expect_err("lease should not exist after delete_lease");
}

// Local is_draining override moves this replica from active to draining even
// when the lease label hasn't propagated yet (watch lag).
#[test]
fn update_active_replicas_local_draining_override() {
    let my_id = "replica-self";
    // A lease for this replica WITHOUT the draining label (simulating watch lag)
    let leases = vec![make_lease("epa-replica-replica-self", "test-ns", "10.0.0.1:8443", NOW, 30)];
    let mut m = manager(my_id, "10.0.0.1", "epa-pod-self");
    m.mark_draining();
    m.update_active_replicas(&leases, NOW);

    let active = m.get_active_replicas();
    let draining = m.get_draining_replicas();

    assert!(
        !active.contains(&my_id.to_string()),
        "locally draining replica should NOT be in the active set; got: {:?}",
        active
    );
    assert!(
        draining.contains(&my_id.to_string()),
        "locally draining replica should be in the draining set; got: {:?}",
        draining
    );
}

// delete_lease is idempotent — calling it when the lease is already gone succeeds.
#[test]
fn delete_lease_idempotent() {
    let mut server = Server { leases: vec![] };
    let m = manager("replica-gone", "10.0.0.1", "epa-pod-gone");
    assert!(
        deleted(server.delete(&m.lease_name())),
        "delete_lease should succeed even when lease does not exist"
    );
    assert!(!deleted(CallOutcome::Refused(403)));
    assert!(!deleted(CallOutcome::Failed));
}

// get_all_replicas returns the union of the active and draining sets.
#[test]
fn get_all_replicas_returns_union_of_active_and_draining() {
    let leases = vec![
        make_lease("epa-replica-active", "test-ns", "10.0.0.1:8443", NOW, 30),
        make_draining_lease("epa-replica-draining", "test-ns", "10.0.0.2:8443", NOW, 30),
    ];
    let mut m = manager("self", "10.0.0.99", "pod-self");
    m.update_active_replicas(&leases, NOW);

    let all = m.get_all_replicas();
    assert_eq!(all.len(), 2, "should contain both active and draining replicas");
    assert!(
        all.contains(&"active".to_string()),
        "active replica must be present; got: {:?}",
        all
    );
    assert!(
        all.contains(&"draining".to_string()),
        "draining replica must be present; got: {:?}",
        all
    );

    // Verify the disjointness invariant: each ID lands in the correct set.
    let active = m.get_active_replicas();
    let draining = m.get_draining_replicas();
    assert!(
        active.contains(&"active".to_string()),
        "non-draining lease must be in active set; got: {:?}",
        active
    );
    assert!(
        draining.contains(&"draining".to_string()),
        "draining-labelled lease must be in draining set; got: {:?}",
        draining
    );
}

#[test]
fn lease_durations_are_bounded() {
    let day = 86400 * SECOND;
    let long = make_lease("epa-replica-a", "n", "h", NOW, i32::MAX);
    assert!(is_live(&long, NOW + day - 1));
    assert!(!is_live(&long, NOW + day));
    let negative = make_lease("epa-replica-a", "n", "h", NOW, -1);
    assert!(!is_live(&negative, NOW - 10 * SECOND));
    let usual = make_lease("epa-replica-a", "n", "h", NOW, 30);
    assert!(is_live(&usual, NOW + 30 * SECOND - 1));
    assert!(!is_live(&usual, NOW + 30 * SECOND));
    assert!(!is_draining(&usual));
    assert!(is_draining(&make_draining_lease("epa-replica-a", "n", "h", NOW, 30)));
}

#[test]
fn a_registered_replica_is_seen_until_its_lease_expires() {
    let m = manager("r", "10.0.0.1", "p");
    let mut other = manager("s", "10.0.0.2", "q");
    let leases = vec![m.lease(NOW)];
    other.update_active_replicas(&leases, NOW + 29 * SECOND);
    assert_eq!(other.get_active_replicas(), vec!["r".to_string()]);
    other.update_active_replicas(&leases, NOW + 30 * SECOND);
    assert!(other.get_active_replicas().is_empty());
}
