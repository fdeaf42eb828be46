use external_pod_autoscaler::k8s::{Lease, LeaseSpec, ObjectMeta};
use external_pod_autoscaler::labels::Labels;
use external_pod_autoscaler::membership::manager::MembershipManager;
use external_pod_autoscaler::membership::ownership::{
    heaviest, highest_weight_replica, EpaOwnership, GRACE_BUFFER,
};

const MS: u64 = 1_000_000;
const SECOND: u64 = 1_000_000_000;
const WALL: i64 = 1_700_000_000_000_000;

fn make_active_lease(replica_id: &str, pod_ip: &str) -> Lease {
    let mut labels = Labels::new();
    labels.insert("app".to_string(), "external-pod-autoscaler".to_string());
    let mut metadata = ObjectMeta::empty();
    metadata.name = Some(format!("epa-replica-{}", replica_id));
    metadata.namespace = Some("test-ns".to_string());
    metadata.labels = Some(labels);
    Lease {
        metadata,
        spec: Some(LeaseSpec {
            holder_identity: Some(format!("{}:8443", pod_ip)),
            lease_duration_seconds: Some(30),
            renew_time: Some(WALL),
            acquire_time: Some(WALL),
        }),
    }
}

fn make_draining_active_lease(replica_id: &str, pod_ip: &str) -> Lease {
    let mut lease = make_active_lease(replica_id, pod_ip);
    let mut labels = lease.metadata.labels.clone().unwrap();
    labels.insert("draining".to_string(), "true".to_string());
    lease.metadata.labels = Some(labels);
    lease
}

fn make_manager(leases: &Vec<Lease>, replica_id: &str, pod_ip: &str) -> MembershipManager {
    let mut manager = MembershipManager::new(
        replica_id.to_string(),
        pod_ip.to_string(),
        format!("epa-pod-{}", replica_id),
        "test-ns".to_string(),
        8443,
    );
    manager.update_active_replicas(leases, WALL);
    manager
}

fn address(id: &str) -> &'static str {
    match id {
        "replica-a" => "10.0.0.1",
        "replica-b" => "10.0.0.2",
        _ => "10.0.0.3",
    }
}

fn leases_of(ids: &[&str]) -> Vec<Lease> {
    ids.iter().map(|id| make_active_lease(id, address(id))).collect()
}

fn owner_of(manager: &MembershipManager) -> Option<String> {
    EpaOwnership::get_epa_owner(manager, "default", "test-epa")
}

fn winner(leases: &Vec<Lease>) -> String {
    owner_of(&make_manager(leases, "replica-a", "10.0.0.1")).expect("should have an owner")
}

fn scrapes(ownership: &EpaOwnership) -> bool {
    ownership.should_scrape_epa("default", "test-epa")
}

fn serves(ownership: &EpaOwnership, manager: &MembershipManager, now: u64) -> bool {
    ownership.should_serve_epa(manager, "default", "test-epa", now)
}

fn refresh(ownership: &mut EpaOwnership, manager: &MembershipManager, period: u64, now: u64) {
    ownership.refresh_ownership(manager, "default", "test-epa", period as u128, now);
}

#[test]
fn single_replica_owns_all_epas() {
    let leases = vec![make_active_lease("replica-1", "10.0.0.1")];
    let manager = make_manager(&leases, "replica-1", "10.0.0.1");
    let owner = owner_of(&manager);
    assert_eq!(
        owner.as_deref(),
        Some("replica-1"),
        "Single replica should always be the owner"
    );
}

#[test]
fn exactly_one_replica_owns_epa() {
    let leases = leases_of(&["replica-a", "replica-b"]);
    let manager_a = make_manager(&leases, "replica-a", "10.0.0.1");
    let manager_b = make_manager(&leases, "replica-b", "10.0.0.2");

    let owner_a = owner_of(&manager_a).expect("expected an owner when two replicas are active");
    let owner_b = owner_of(&manager_b).expect("expected an owner when two replicas are active");
    assert_eq!(owner_a, owner_b, "Both replicas should agree on the owner");
    assert!(
        owner_a == "replica-a" || owner_a == "replica-b",
        "Owner should be one of the active replicas, got {}",
        owner_a
    );

    let owner_epa2_a = EpaOwnership::get_epa_owner(&manager_a, "default", "test-epa-2").unwrap();
    let owner_epa2_b = EpaOwnership::get_epa_owner(&manager_b, "default", "test-epa-2").unwrap();
    assert_eq!(
        owner_epa2_a, owner_epa2_b,
        "Both replicas must agree for any EPA key"
    );
    let a = EpaOwnership::is_epa_owner(&manager_a, "default", "test-epa");
    let b = EpaOwnership::is_epa_owner(&manager_b, "default", "test-epa");
    assert_ne!(a, b);
}

#[test]
fn ownership_test_get_epa_owner_no_replicas() {
    // update_active_replicas intentionally not called; active set stays empty
    let manager = MembershipManager::new(
        "replica-lonely".to_string(),
        "10.0.0.1".to_string(),
        "epa-pod-lonely".to_string(),
        "test-ns".to_string(),
        8443,
    );
    assert!(
        owner_of(&manager).is_none(),
        "No active replicas should produce None owner"
    );
    assert!(!EpaOwnership::is_epa_owner(&manager, "default", "test-epa"));
}

#[test]
fn ownership_test_get_epa_owner_consistent() {
    let leases = vec![make_active_lease("replica-1", "10.0.0.1")];
    let manager = make_manager(&leases, "replica-1", "10.0.0.1");
    let owner1 = owner_of(&manager);
    let owner2 = owner_of(&manager);
    assert_eq!(
        owner1, owner2,
        "get_epa_owner should return the same owner for the same input"
    );
    assert!(owner1.is_some(), "Owner should be Some when replicas are active");
}

#[test]
fn refresh_ownership_tracks_new_owner() {
    let leases = vec![make_active_lease("replica-1", "10.0.0.1")];
    let manager = make_manager(&leases, "replica-1", "10.0.0.1");
    let mut ownership = EpaOwnership::new();

    assert!(
        !scrapes(&ownership),
        "Should not scrape before refresh_ownership is called"
    );
    assert!(
        !serves(&ownership, &manager, 0),
        "Should not serve before refresh_ownership is called"
    );

    refresh(&mut ownership, &manager, 100 * MS, 0);

    assert!(scrapes(&ownership), "New owner should scrape immediately");
    assert!(
        serves(&ownership, &manager, 0),
        "New owner should serve immediately when no previous owner exists"
    );
}

#[test]
fn should_serve_after_evaluation_period_elapses() {
    let leases = vec![make_active_lease("replica-1", "10.0.0.1")];
    let manager = make_manager(&leases, "replica-1", "10.0.0.1");
    let mut ownership = EpaOwnership::new();
    let eval_period = 50 * MS;

    refresh(&mut ownership, &manager, eval_period, 0);
    let now = 200 * MS;
    refresh(&mut ownership, &manager, eval_period, now);

    assert!(scrapes(&ownership), "Owner should still scrape after evaluation period");
    assert!(
        serves(&ownership, &manager, now),
        "Owner should serve after evaluation period elapses"
    );
}

#[test]
fn lost_owner_still_scrapes_and_serves() {
    let mut leases = leases_of(&["replica-a", "replica-b"]);
    let id = winner(&leases);
    let mut manager = make_manager(&leases, &id, address(&id));
    let mut ownership = EpaOwnership::new();
    let eval_period = 50 * MS;

    refresh(&mut ownership, &manager, eval_period, 0);
    let mut now = 200 * MS;
    refresh(&mut ownership, &manager, eval_period, now);
    assert!(
        serves(&ownership, &manager, now),
        "Winner should be serving before we remove its lease"
    );

    leases.retain(|l| l.metadata.name != Some(format!("epa-replica-{}", id)));
    manager.update_active_replicas(&leases, WALL);
    refresh(&mut ownership, &manager, eval_period, now);

    assert!(
        scrapes(&ownership),
        "Old owner should still scrape during the grace window"
    );
    assert!(
        serves(&ownership, &manager, now),
        "Old owner should still serve during the grace window"
    );

    now += eval_period + GRACE_BUFFER as u64 + 100 * MS;
    refresh(&mut ownership, &manager, eval_period, now);
    assert!(
        !scrapes(&ownership),
        "Old owner must stop scraping after grace window expires"
    );
    assert!(
        !serves(&ownership, &manager, now),
        "Old owner must stop serving after grace window expires"
    );
}

#[test]
fn non_owner_does_not_scrape_or_serve() {
    let leases = leases_of(&["replica-a", "replica-b"]);
    let owner = winner(&leases);
    let other = if owner == "replica-a" { "replica-b" } else { "replica-a" };
    let manager = make_manager(&leases, other, address(other));
    let mut ownership = EpaOwnership::new();
    refresh(&mut ownership, &manager, 100 * MS, 0);

    assert!(!scrapes(&ownership), "Non-owner should not scrape");
    assert!(!serves(&ownership, &manager, 0), "Non-owner should not serve");
}

#[test]
fn scale_down_old_owner_continues_serving() {
    let mut leases = leases_of(&["replica-a", "replica-b", "replica-c"]);
    let id = winner(&leases);
    let mut manager = make_manager(&leases, &id, address(&id));
    let mut ownership = EpaOwnership::new();
    let eval_period = 50 * MS;

    refresh(&mut ownership, &manager, eval_period, 0);
    let now = 200 * MS;
    refresh(&mut ownership, &manager, eval_period, now);
    assert!(
        serves(&ownership, &manager, now),
        "Owner should be serving after evaluation period"
    );

    leases.retain(|l| l.metadata.name != Some(format!("epa-replica-{}", id)));
    manager.update_active_replicas(&leases, WALL);
    refresh(&mut ownership, &manager, eval_period, now);

    assert!(
        scrapes(&ownership),
        "Old owner should still scrape during grace window after scale-down"
    );
    assert!(
        serves(&ownership, &manager, now),
        "Old owner should still serve during grace window after scale-down"
    );

    let new_owner = owner_of(&manager).expect("should have a new owner from remaining replicas");
    assert_ne!(
        new_owner, id,
        "New owner should be one of the remaining replicas, not the removed one"
    );
}

#[test]
fn scale_up_old_owner_continues_serving() {
    let mut leases = leases_of(&["replica-a"]);
    let mut manager = make_manager(&leases, "replica-a", "10.0.0.1");
    let mut ownership = EpaOwnership::new();
    let eval_period = 50 * MS;

    refresh(&mut ownership, &manager, eval_period, 0);
    let now = 200 * MS;
    refresh(&mut ownership, &manager, eval_period, now);
    assert!(
        serves(&ownership, &manager, now),
        "Replica a should be serving as the sole owner"
    );

    leases.push(make_active_lease("replica-b", "10.0.0.2"));
    manager.update_active_replicas(&leases, WALL);
    refresh(&mut ownership, &manager, eval_period, now);

    let new_owner = owner_of(&manager).expect("should have an owner after scale-up");
    assert!(
        scrapes(&ownership),
        "must scrape after scale-up (as owner or during grace window)"
    );
    assert!(
        serves(&ownership, &manager, now),
        "must serve after scale-up (as owner or during grace window)"
    );
    if new_owner != "replica-a" {
        assert_eq!(
            new_owner, "replica-b",
            "when replica_a loses hash ownership, replica_b must be the new owner"
        );
    }
}

#[test]
fn get_previous_epa_owner_returns_draining_replica() {
    let mut leases = leases_of(&["replica-a", "replica-b", "replica-c"]);
    let winner_id = winner(&leases);

    // Replace the winner's lease with a draining version.
    leases.retain(|l| l.metadata.name != Some(format!("epa-replica-{}", winner_id)));
    leases.push(make_draining_active_lease(&winner_id, address(&winner_id)));

    let survivor = if winner_id == "replica-a" { "replica-b" } else { "replica-a" };
    let manager = make_manager(&leases, survivor, address(survivor));

    let current_owner = owner_of(&manager).expect("should have a current owner");
    assert_ne!(
        current_owner, winner_id,
        "get_epa_owner should not return the draining replica"
    );
    let previous_owner =
        EpaOwnership::get_previous_epa_owner(&manager, "default", "test-epa").unwrap();
    assert_eq!(
        previous_owner, winner_id,
        "get_previous_epa_owner should return the draining replica that was the original winner"
    );
    assert_ne!(
        current_owner, previous_owner,
        "get_epa_owner and get_previous_epa_owner must disagree when the winner is draining"
    );
}

#[test]
fn get_previous_epa_owner_returns_none_when_no_replicas() {
    let manager = make_manager(&vec![], "replica-lonely", "10.0.0.1");
    assert!(
        EpaOwnership::get_previous_epa_owner(&manager, "default", "test-epa").is_none(),
        "No active or draining replicas should produce None"
    );
}

#[test]
fn get_previous_epa_owner_matches_current_when_no_draining() {
    let leases = leases_of(&["replica-a", "replica-b"]);
    let manager = make_manager(&leases, "replica-a", "10.0.0.1");
    let current = owner_of(&manager);
    let previous = EpaOwnership::get_previous_epa_owner(&manager, "default", "test-epa");
    assert!(current.is_some(), "should have a current owner");
    assert_eq!(
        current, previous,
        "with no draining replicas, get_previous_epa_owner should match get_epa_owner"
    );
}

#[test]
fn get_epa_owner_returns_new_owner_during_transition() {
    let mut leases = leases_of(&["replica-a", "replica-b"]);
    let winner_id = winner(&leases);
    let other_id = if winner_id == "replica-a" { "replica-b" } else { "replica-a" };
    let mut manager = make_manager(&leases, &winner_id, address(&winner_id));
    let mut ownership = EpaOwnership::new();
    refresh(&mut ownership, &manager, 100 * MS, 0);

    leases.retain(|l| l.metadata.name != Some(format!("epa-replica-{}", winner_id)));
    manager.update_active_replicas(&leases, WALL);
    refresh(&mut ownership, &manager, 100 * MS, 0);

    let current_owner = owner_of(&manager).expect("should have a new owner after lease removal");
    assert_eq!(
        current_owner, other_id,
        "get_epa_owner should return the new owner during transition for correct forwarding"
    );
}

#[test]
fn lost_owner_stops_after_grace_window_expires() {
    let mut leases = leases_of(&["replica-a", "replica-b"]);
    let id = winner(&leases);
    let mut manager = make_manager(&leases, &id, address(&id));
    let mut ownership = EpaOwnership::new();
    let eval_period = 10 * SECOND;

    refresh(&mut ownership, &manager, eval_period, 0);
    let mut now = eval_period + SECOND;
    refresh(&mut ownership, &manager, eval_period, now);
    assert!(
        serves(&ownership, &manager, now),
        "Winner should be serving after eval period"
    );

    leases.retain(|l| l.metadata.name != Some(format!("epa-replica-{}", id)));
    manager.update_active_replicas(&leases, WALL);
    refresh(&mut ownership, &manager, eval_period, now);

    assert!(scrapes(&ownership), "Old owner should still scrape during grace window");
    assert!(
        serves(&ownership, &manager, now),
        "Old owner should still serve during grace window"
    );

    now += eval_period + GRACE_BUFFER as u64 + SECOND;
    refresh(&mut ownership, &manager, eval_period, now);
    assert!(
        !scrapes(&ownership),
        "Old owner should stop scraping after grace window expires"
    );
    assert!(
        !serves(&ownership, &manager, now),
        "Old owner should stop serving after grace window expires"
    );
}

#[test]
fn get_previous_epa_owner_unchanged_when_non_winner_drains() {
    let mut leases = leases_of(&["replica-a", "replica-b"]);
    let original_owner = winner(&leases);
    let non_winner = if original_owner == "replica-a" { "replica-b" } else { "replica-a" };

    // Replace the non-winner's lease with a draining version.
    leases.retain(|l| l.metadata.name != Some(format!("epa-replica-{}", non_winner)));
    leases.push(make_draining_active_lease(non_winner, address(non_winner)));

    let manager = make_manager(&leases, &original_owner, address(&original_owner));
    let current_owner = owner_of(&manager).expect("should have a current owner");
    assert_eq!(
        current_owner, original_owner,
        "get_epa_owner should still return the original winner when only a non-winner drains"
    );
    let previous_owner =
        EpaOwnership::get_previous_epa_owner(&manager, "default", "test-epa").unwrap();
    assert_eq!(
        previous_owner, original_owner,
        "get_previous_epa_owner should match get_epa_owner when the draining replica is not the winner"
    );
}

#[test]
fn should_serve_immediately_when_previous_owner_gone() {
    let leases = vec![make_active_lease("replica-1", "10.0.0.1")];
    let manager = make_manager(&leases, "replica-1", "10.0.0.1");
    let mut ownership = EpaOwnership::new();
    refresh(&mut ownership, &manager, 60 * SECOND, 0);
    assert!(
        serves(&ownership, &manager, 0),
        "Should serve immediately when no previous owner exists"
    );
}

#[test]
fn should_wait_when_previous_owner_alive() {
    let mut leases = leases_of(&["replica-a", "replica-b"]);
    let winner_id = winner(&leases);
    let non_winner_id = if winner_id == "replica-a" { "replica-b" } else { "replica-a" };

    // The winner drains.
    leases.retain(|l| l.metadata.name != Some(format!("epa-replica-{}", winner_id)));
    leases.push(make_draining_active_lease(&winner_id, address(&winner_id)));

    let manager = make_manager(&leases, non_winner_id, address(non_winner_id));
    let mut ownership = EpaOwnership::new();
    refresh(&mut ownership, &manager, 60 * SECOND, 0);
    assert!(
        !serves(&ownership, &manager, 0),
        "Should not serve when previous owner is still draining"
    );

    let current_owner = owner_of(&manager).expect("should have a current owner");
    assert_eq!(
        current_owner, non_winner_id,
        "Non-winner should now be the hash owner"
    );
    let previous_owner =
        EpaOwnership::get_previous_epa_owner(&manager, "default", "test-epa").unwrap();
    assert_eq!(
        previous_owner, winner_id,
        "Previous owner should be the draining winner"
    );
    assert!(serves(&ownership, &manager, 60 * SECOND));
}

#[test]
fn should_serve_when_previous_owner_lease_expires() {
    let mut leases = leases_of(&["replica-a", "replica-b"]);
    let winner_id = winner(&leases);
    let non_winner_id = if winner_id == "replica-a" { "replica-b" } else { "replica-a" };

    // The winner's lease is gone.
    leases.retain(|l| l.metadata.name != Some(format!("epa-replica-{}", winner_id)));

    let manager = make_manager(&leases, non_winner_id, address(non_winner_id));
    let mut ownership = EpaOwnership::new();
    refresh(&mut ownership, &manager, 60 * SECOND, 0);
    assert!(
        serves(&ownership, &manager, 0),
        "Should serve when the previous owner's lease has expired"
    );
}

#[test]
fn weights_depend_on_replica_and_resource() {
    let replicas: Vec<String> =
        ["replica-a", "replica-b", "replica-c"].iter().map(|s| s.to_string()).collect();
    for (name, owner) in [
        ("worker", "replica-a"),
        ("queue", "replica-c"),
        ("billing", "replica-a"),
        ("mail", "replica-b"),
        ("web", "replica-b"),
        ("db", "replica-c"),
    ] {
        let key = format!("default/{}", name);
        assert_eq!(highest_weight_replica(&replicas, &key).as_deref(), Some(owner));
    }
}

#[test]
fn of_equal_weights_the_last_wins() {
    assert_eq!(heaviest(&vec![3, 9, 9, 1]), Some(2));
    assert_eq!(heaviest(&vec![]), None);
}

#[test]
fn a_replica_that_leaves_takes_nothing_from_the_others() {
    let three = leases_of(&["replica-a", "replica-b", "replica-c"]);
    for i in 0..50 {
        let name = format!("epa-{}", i);
        let all = make_manager(&three, "replica-a", "10.0.0.1");
        let owner = EpaOwnership::get_epa_owner(&all, "default", &name).unwrap();
        let leaver = if owner == "replica-c" { "replica-b" } else { "replica-c" };
        let rest: Vec<Lease> = three
            .iter()
            .filter(|l| l.metadata.name != Some(format!("epa-replica-{}", leaver)))
            .cloned()
            .collect();
        let fewer = make_manager(&rest, "replica-a", "10.0.0.1");
        assert_eq!(EpaOwnership::get_epa_owner(&fewer, "default", &name), Some(owner));
    }
}
