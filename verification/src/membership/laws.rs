//! What holds of the assignment of resources to replicas as a whole.

use crate::duration::elapsed;
use crate::k8s::{CallOutcome, Lease};
use crate::membership::manager::{
    after_create, deleted, get_replica_address, is_draining, is_live, lease_draining, lease_live,
    lease_name_of, lease_replica, lease_shows, name_lease, names_differ, shown, MembershipManager,
    RenewStep, LEASE_SECONDS, MICROS,
};
use crate::membership::ownership::{
    epa_key, fnv_weight, heaviest, highest_weight_replica, in_grace, is_owner, key_of, may_find,
    no_ties, wins, EpaOwnership, Holdings, LostOwnership, GRACE_BUFFER,
};
use crate::number::unsigned_text;
use crate::text::views;
use vstd::prelude::*;

verus! {

/// All replicas that see the same set find the same owner.
pub proof fn law_replicas_agree(
    replicas: Set<Seq<char>>,
    key: Seq<char>,
    a: Option<Seq<char>>,
    b: Option<Seq<char>>,
)
    requires
        no_ties(replicas, key),
        is_owner(replicas, key, a),
        is_owner(replicas, key, b),
    ensures
        a == b,
{
    if let Some(x) = a {
        if let Some(y) = b {
            assert(fnv_weight(x, key) <= fnv_weight(y, key));
            assert(fnv_weight(y, key) <= fnv_weight(x, key));
        }
    }
}

/// Exactly one of the replicas that see the same set takes itself for the owner.
pub proof fn law_exactly_one_owner(
    replicas: Set<Seq<char>>,
    key: Seq<char>,
    owner: Seq<char>,
    id: Seq<char>,
    mine: bool,
)
    requires
        no_ties(replicas, key),
        is_owner(replicas, key, Some(owner)),
    ensures
        may_find(replicas, key, id, mine) == (mine == (id == owner)),
{
    if may_find(replicas, key, id, mine) {
        let found = choose|o: Option<Seq<char>>| #[trigger]
            is_owner(replicas, key, o) && mine == (o == Some(id));
        law_replicas_agree(replicas, key, found, Some(owner));
    }
}

/// A replica that is alone owns every resource.
pub proof fn law_single_replica_owns_all(id: Seq<char>, key: Seq<char>, owner: Option<Seq<char>>)
    ensures
        is_owner(set![id], key, owner) == (owner == Some(id)),
{
    assert(set![id].contains(id));
}

/// When a replica leaves, the resources of the others stay where they are.
pub proof fn law_leave_keeps_others(
    replicas: Set<Seq<char>>,
    key: Seq<char>,
    gone: Seq<char>,
    owner: Seq<char>,
)
    requires
        is_owner(replicas, key, Some(owner)),
        owner != gone,
    ensures
        is_owner(replicas.remove(gone), key, Some(owner)),
{
}

/// When a replica joins, a resource stays where it is or goes to the newcomer.
pub proof fn law_join_moves_only_to_newcomer(
    replicas: Set<Seq<char>>,
    key: Seq<char>,
    newcomer: Seq<char>,
    before: Option<Seq<char>>,
    after: Option<Seq<char>>,
)
    requires
        no_ties(replicas.insert(newcomer), key),
        is_owner(replicas, key, before),
        is_owner(replicas.insert(newcomer), key, after),
    ensures
        after == before || after == Some(newcomer),
{
    let all = replicas.insert(newcomer);
    assert(all.contains(newcomer));
    if after != Some(newcomer) {
        let x = after->0;
        assert(replicas.contains(x));
        assert(before is Some);
        let y = before->0;
        assert(fnv_weight(x, key) <= fnv_weight(y, key));
        assert(all.contains(y));
        assert(fnv_weight(y, key) <= fnv_weight(x, key));
    }
}

/// While no replica drains, the previous owner is the owner.
pub proof fn law_previous_owner_without_draining(
    active: Set<Seq<char>>,
    key: Seq<char>,
    current: Option<Seq<char>>,
    previous: Option<Seq<char>>,
)
    requires
        no_ties(active, key),
        is_owner(active, key, current),
        is_owner(active.union(Set::<Seq<char>>::empty()), key, previous),
    ensures
        current == previous,
{
    assert(active.union(Set::<Seq<char>>::empty()) =~= active);
    law_replicas_agree(active, key, current, previous);
}

/// A draining replica that did not own a resource changes neither its owner nor its
/// previous owner.
pub proof fn law_previous_owner_when_another_drains(
    active: Set<Seq<char>>,
    draining: Set<Seq<char>>,
    key: Seq<char>,
    current: Option<Seq<char>>,
    previous: Seq<char>,
)
    requires
        no_ties(active.union(draining), key),
        is_owner(active, key, current),
        is_owner(active.union(draining), key, Some(previous)),
        active.contains(previous),
    ensures
        current == Some(previous),
{
    let all = active.union(draining);
    assert(current is Some);
    let x = current->0;
    assert(all.contains(x));
    assert(fnv_weight(x, key) <= fnv_weight(previous, key));
    assert(fnv_weight(previous, key) <= fnv_weight(x, key));
}

/// Where the replica of highest weight drains, it is the previous owner and an
/// active one is the owner.
pub proof fn law_previous_owner_when_the_owner_drains(
    active: Set<Seq<char>>,
    draining: Set<Seq<char>>,
    key: Seq<char>,
    current: Option<Seq<char>>,
    previous: Option<Seq<char>>,
    leaving: Seq<char>,
)
    requires
        no_ties(active.union(draining), key),
        wins(active.union(draining), key, leaving),
        !active.contains(leaving),
        is_owner(active, key, current),
        is_owner(active.union(draining), key, previous),
    ensures
        previous == Some(leaving),
        current != previous,
{
    law_replicas_agree(active.union(draining), key, previous, Some(leaving));
}

/// Different resources have different keys, whatever their names; a namespace holds
/// no `/`.
pub proof fn law_keys_differ(ns1: Seq<char>, name1: Seq<char>, ns2: Seq<char>, name2: Seq<char>)
    requires
        !ns1.contains('/'),
        !ns2.contains('/'),
        key_of(ns1, name1) == key_of(ns2, name2),
    ensures
        ns1 == ns2,
        name1 == name2,
{
    reveal_strlit("/");
    let a = key_of(ns1, name1);
    let b = key_of(ns2, name2);
    assert(a[ns1.len() as int] == '/');
    assert(b[ns2.len() as int] == '/');
    if ns1.len() < ns2.len() {
        assert(ns2[ns1.len() as int] == '/');
    } else if ns2.len() < ns1.len() {
        assert(ns1[ns2.len() as int] == '/');
    }
    assert forall|i: int| 0 <= i < ns1.len() implies ns1[i] == ns2[i] by {
        assert(a[i] == ns1[i] && b[i] == ns2[i]);
    }
    assert(ns1 =~= ns2);
    assert(a.len() == ns1.len() + 1 + name1.len());
    assert(b.len() == ns2.len() + 1 + name2.len());
    assert forall|i: int| 0 <= i < name1.len() implies name1[i] == name2[i] by {
        assert(a[ns1.len() + 1 + i] == name1[i]);
        assert(b[ns1.len() + 1 + i] == name2[i]);
    }
    assert(name1 =~= name2);
}

/// Whether no resource is both owned and lost.
pub open spec fn apart(h: Holdings) -> bool {
    forall|k: Seq<char>| !(#[trigger] h.owned.contains_key(k) && h.lost.contains_key(k))
}

/// No resource is ever both owned and lost.
pub proof fn law_owned_and_lost_stay_apart(
    h: Holdings,
    key: Seq<char>,
    mine: bool,
    evaluation_period: u128,
    now: u64,
)
    requires
        apart(h),
    ensures
        apart(h.refreshed(key, mine, evaluation_period, now)),
{
}

/// A tick for one resource leaves the others as they are, but for losses whose grace
/// window is over.
pub proof fn law_tick_leaves_others(
    h: Holdings,
    key: Seq<char>,
    mine: bool,
    evaluation_period: u128,
    now: u64,
    other: Seq<char>,
)
    requires
        other != key,
    ensures
        ({
            let next = h.refreshed(key, mine, evaluation_period, now);
            &&& next.owned.contains_key(other) == h.owned.contains_key(other)
            &&& h.owned.contains_key(other) ==> next.owned[other] == h.owned[other]
            &&& next.lost.contains_key(other) == (h.lost.contains_key(other) && in_grace(
                h.lost[other],
                now,
            ))
            &&& next.lost.contains_key(other) ==> next.lost[other] == h.lost[other]
        }),
{
}

/// What a replica does in each state of a resource.
pub proof fn law_states(
    h: Holdings,
    key: Seq<char>,
    previous: Option<Seq<char>>,
    my_id: Seq<char>,
    now: u64,
)
    ensures
        h.owned.contains_key(key) ==> h.scrapes(key),
        h.owned.contains_key(key) && elapsed(now, h.owned[key].since)
            >= h.owned[key].evaluation_period ==> h.serves(key, previous, my_id, now),
        h.owned.contains_key(key) && elapsed(now, h.owned[key].since)
            < h.owned[key].evaluation_period ==> h.serves(key, previous, my_id, now) == (previous
            is None || previous == Some(my_id)),
        !h.owned.contains_key(key) && h.lost.contains_key(key) ==> h.scrapes(key) && h.serves(
            key,
            previous,
            my_id,
            now,
        ),
        !h.owned.contains_key(key) && !h.lost.contains_key(key) ==> !h.scrapes(key) && !h.serves(
            key,
            previous,
            my_id,
            now,
        ),
        h.serves(key, previous, my_id, now) ==> h.scrapes(key),
{
}

/// A replica that is found to be the owner has the resource from the first time it
/// was found so, and no loss of it is remembered.
pub proof fn law_winning_tick(
    h: Holdings,
    key: Seq<char>,
    evaluation_period: u128,
    now: u64,
)
    ensures
        ({
            let next = h.refreshed(key, true, evaluation_period, now);
            &&& next.owned.contains_key(key)
            &&& next.owned[key].evaluation_period == evaluation_period
            &&& next.owned[key].since == (if h.owned.contains_key(key) {
                h.owned[key].since
            } else {
                now
            })
            &&& !next.lost.contains_key(key)
        }),
{
}

/// A replica that loses a resource goes on with it from then for the evaluation
/// period known at that time, and a little longer. Later ticks neither move the start
/// of that window nor change its length; once it is over the resource is forgotten.
pub proof fn law_losing_ticks(
    h: Holdings,
    key: Seq<char>,
    evaluation_period: u128,
    at: u64,
    later_period: u128,
    now: u64,
)
    requires
        apart(h),
        h.owned.contains_key(key),
    ensures
        ({
            let lost = h.refreshed(key, false, evaluation_period, at);
            let entry = LostOwnership { at, evaluation_period };
            let next = lost.refreshed(key, false, later_period, now);
            &&& !lost.owned.contains_key(key)
            &&& lost.lost.contains_key(key)
            &&& lost.lost[key] == entry
            &&& !next.owned.contains_key(key)
            &&& next.lost.contains_key(key) == in_grace(entry, now)
            &&& next.lost.contains_key(key) ==> next.lost[key] == entry
        }),
{
}

/// A resource that changes hands is served without a gap: at every later tick the old
/// owner or the new one serves it, where the new one learned of the change no later
/// than the buffer allows after the old one.
pub proof fn law_handover_without_gap(
    old_owner: Holdings,
    new_owner: Holdings,
    key: Seq<char>,
    evaluation_period: u128,
    now: u64,
    old_id: Seq<char>,
    old_previous: Option<Seq<char>>,
    new_id: Seq<char>,
    new_previous: Option<Seq<char>>,
)
    requires
        !old_owner.owned.contains_key(key),
        old_owner.lost.contains_key(key),
        old_owner.lost[key].evaluation_period == evaluation_period,
        new_owner.owned.contains_key(key),
        new_owner.owned[key].since <= old_owner.lost[key].at + GRACE_BUFFER,
    ensures
        old_owner.refreshed(key, false, evaluation_period, now).serves(
            key,
            old_previous,
            old_id,
            now,
        ) || new_owner.refreshed(key, true, evaluation_period, now).serves(
            key,
            new_previous,
            new_id,
            now,
        ),
{
    if !in_grace(old_owner.lost[key], now) {
        assert(elapsed(now, new_owner.owned[key].since) >= evaluation_period);
    }
}

/// Leases with different names show no replica as both active and draining, so the
/// two sets of a membership that is up to date have no replica in common.
pub proof fn law_active_and_draining_disjoint(leases: Seq<Lease>, now: i64, id: Seq<char>)
    requires
        names_differ(leases),
    ensures
        !(shown(leases, now, id, false) && shown(leases, now, id, true)),
{
    if shown(leases, now, id, false) && shown(leases, now, id, true) {
        let i = choose|i: int|
            0 <= i < leases.len() && lease_shows(#[trigger] leases[i], now, id, false);
        let j = choose|j: int|
            0 <= j < leases.len() && lease_shows(#[trigger] leases[j], now, id, true);
        let a = leases[i].metadata.name->0@;
        let b = leases[j].metadata.name->0@;
        let head = "epa-replica-"@;
        assert(a =~= head + id) by {
            assert(a =~= a.take(head.len() as int) + a.skip(head.len() as int));
        }
        assert(b =~= head + id) by {
            assert(b =~= b.take(head.len() as int) + b.skip(head.len() as int));
        }
        assert(i != j);
    }
}

/// A replica that has registered itself is seen by all that list the leases, as
/// active or as draining as it said, until its lease runs out.
pub proof fn law_registration_is_seen(
    manager: &MembershipManager,
    lease: Lease,
    registered: i64,
    now: i64,
)
    requires
        manager.registers(lease, registered),
    ensures
        lease_replica(lease) == Some(manager.id()),
        lease_live(lease, now) == (now < registered + LEASE_SECONDS * MICROS),
        lease_draining(lease) == manager.leaving(),
{
    let head = "epa-replica-"@;
    let name = lease_name_of(manager.id());
    assert(name.take(head.len() as int) =~= head);
    assert(name.skip(head.len() as int) =~= manager.id());
    reveal_strlit("app");
    reveal_strlit("draining");
    reveal_strlit("replica-id");
    assert("app"@.len() == 3);
    assert("draining"@.len() == 8);
    assert("replica-id"@.len() == 10);
}

// ---------------------------------------------------------------------------
// Leases
// ---------------------------------------------------------------------------

/// A lease is valid from its renewal until its duration is over. Without either it is not
/// valid, nor with a duration below zero; a duration of more than a day counts as a day.
pub proof fn law_valid_leases(lease: &Lease, now: i64, r: bool)
    requires
        call_ensures(is_live, (lease, now), r),
    ensures
        lease.spec is None ==> !r,
        lease.spec matches Some(spec) ==> {
            &&& spec.renew_time is None || spec.lease_duration_seconds is None ==> !r
            &&& spec.renew_time is Some && spec.lease_duration_seconds is Some ==> ({
                let renewed = spec.renew_time->0;
                let seconds = spec.lease_duration_seconds->0;
                &&& seconds < 0 ==> !r
                &&& 0 <= seconds <= 86400 ==> r == (now < renewed + seconds * 1_000_000)
                &&& seconds > 86400 ==> r == (now < renewed + 86_400_000_000)
            })
        },
{
}

/// A replica drains where its lease has the label `draining` with the value `true`, and
/// not with any other value.
pub proof fn law_draining_leases(lease: &Lease, r: bool)
    requires
        call_ensures(is_draining, (lease,), r),
    ensures
        lease.metadata.labels is None ==> !r,
        lease.metadata.labels matches Some(labels) ==> r == (labels@.contains_key("draining"@)
            && labels@["draining"@] == "true"@),
{
}

/// Whether a lease is that of a replica, is valid at `now`, and is or is not labelled as
/// draining.
pub open spec fn speaks_for(lease: Lease, id: Seq<char>, now: i64, draining: bool) -> bool {
    &&& lease.metadata.name is Some
    &&& lease.metadata.name->0@ == "epa-replica-"@ + id
    &&& call_ensures(is_live, (&lease, now), true)
    &&& call_ensures(is_draining, (&lease,), draining)
}

proof fn lemma_speaks_for(lease: Lease, id: Seq<char>, now: i64, draining: bool)
    requires
        speaks_for(lease, id, now, draining),
    ensures
        lease_shows(lease, now, id, draining),
{
    let head = "epa-replica-"@;
    let own = head + id;
    assert(own.take(head.len() as int) =~= head);
    assert(own.skip(head.len() as int) =~= id);
}

/// Whether a lease is not that of a replica, or not valid at `now`.
pub open spec fn silent_on(lease: Lease, id: Seq<char>, now: i64) -> bool {
    ||| lease.metadata.name is None
    ||| lease.metadata.name->0@ != "epa-replica-"@ + id
    ||| call_ensures(is_live, (&lease, now), false)
}

proof fn lemma_silent_on(lease: Lease, id: Seq<char>, now: i64, draining: bool)
    requires
        silent_on(lease, id, now),
    ensures
        !lease_shows(lease, now, id, draining),
{
    let head = "epa-replica-"@;
    let n = head.len() as int;
    if lease.metadata.name is Some {
        let name = lease.metadata.name->0@;
        if n <= name.len() {
            assert(name =~= name.take(n) + name.skip(n));
        }
    }
}

/// A replica is active where a lease of its own is valid and does not say that it drains,
/// and draining where one says so. Whoever has no valid lease is neither. A replica that
/// is about to leave counts itself as draining, whatever its lease says.
pub proof fn law_membership_follows_the_leases(
    manager: &mut MembershipManager,
    leases: &Vec<Lease>,
    now: i64,
    id: Seq<char>,
    i: int,
)
    requires
        call_ensures(MembershipManager::update_active_replicas, (manager, leases, now), ()),
    ensures
        final(manager).id() == old(manager).id(),
        final(manager).leaving() == old(manager).leaving(),
        old(manager).leaving() ==> final(manager).draining_set().contains(old(manager).id())
            && !final(manager).active_set().contains(old(manager).id()),
        !(old(manager).leaving() && id == old(manager).id()) ==> {
            &&& 0 <= i < leases@.len() && speaks_for(leases@[i], id, now, false) ==> final(
                manager).active_set().contains(id)
            &&& 0 <= i < leases@.len() && speaks_for(leases@[i], id, now, true) ==> final(
                manager).draining_set().contains(id)
            &&& (forall|k: int|
                0 <= k < leases@.len() ==> silent_on(#[trigger] leases@[k], id, now)) ==> !final(
                manager).active_set().contains(id) && !final(manager).draining_set().contains(id)
            &&& (forall|k: int|
                0 <= k < leases@.len() ==> silent_on(#[trigger] leases@[k], id, now) || speaks_for(
                    leases@[k],
                    id,
                    now,
                    true,
                )) ==> !final(manager).active_set().contains(id)
            &&& (forall|k: int|
                0 <= k < leases@.len() ==> silent_on(#[trigger] leases@[k], id, now) || speaks_for(
                    leases@[k],
                    id,
                    now,
                    false,
                )) ==> !final(manager).draining_set().contains(id)
        },
{
    if 0 <= i < leases@.len() && speaks_for(leases@[i], id, now, false) {
        lemma_speaks_for(leases@[i], id, now, false);
        assert(shown(leases@, now, id, false));
    }
    if 0 <= i < leases@.len() && speaks_for(leases@[i], id, now, true) {
        lemma_speaks_for(leases@[i], id, now, true);
        assert(shown(leases@, now, id, true));
    }
    lemma_only_draining(leases@, id, now, true);
    lemma_only_draining(leases@, id, now, false);
    if forall|k: int| 0 <= k < leases@.len() ==> silent_on(#[trigger] leases@[k], id, now) {
        assert forall|k: int| 0 <= k < leases@.len() implies !lease_shows(
            #[trigger] leases@[k],
            now,
            id,
            false,
        ) && !lease_shows(leases@[k], now, id, true) by {
            lemma_silent_on(leases@[k], id, now, false);
            lemma_silent_on(leases@[k], id, now, true);
        }
    }
}

proof fn lemma_only_draining(leases: Seq<Lease>, id: Seq<char>, now: i64, draining: bool)
    ensures
        (forall|k: int|
            0 <= k < leases.len() ==> silent_on(#[trigger] leases[k], id, now) || speaks_for(
                leases[k],
                id,
                now,
                draining,
            )) ==> !shown(leases, now, id, !draining),
{
    if forall|k: int|
        0 <= k < leases.len() ==> silent_on(#[trigger] leases[k], id, now) || speaks_for(
            leases[k],
            id,
            now,
            draining,
        ) {
        assert forall|k: int| 0 <= k < leases.len() implies !lease_shows(
            #[trigger] leases[k],
            now,
            id,
            !draining,
        ) by {
            if silent_on(leases[k], id, now) {
                lemma_silent_on(leases[k], id, now, !draining);
            } else {
                lemma_speaks_for(leases[k], id, now, draining);
            }
        }
    }
}

/// A replica registers itself for half a minute from now, under its own name and with the
/// address and the port where it is reached; whether it drains is as it said.
pub proof fn law_own_lease(
    manager: &MembershipManager,
    now: i64,
    lease: Lease,
    port: String,
    later: i64,
    live: bool,
    draining: bool,
    own: &str,
    address: Result<String, String>,
)
    requires
        call_ensures(MembershipManager::lease, (manager, now), lease),
        call_ensures(unsigned_text, (manager.port() as u128,), port),
        call_ensures(is_live, (&lease, later), live),
        call_ensures(is_draining, (&lease,), draining),
        own@ == manager.id(),
        call_ensures(get_replica_address, (own, Ok::<Lease, String>(lease)), address),
    ensures
        lease.metadata.name is Some && lease.metadata.name->0@ == "epa-replica-"@ + manager.id(),
        lease.metadata.namespace is Some && lease.metadata.namespace->0@ == manager.home(),
        live == (later < now + 30_000_000),
        draining == manager.leaving(),
        address is Ok && address->Ok_0@ == manager.pod_ip() + ":"@ + port@,
        lease.metadata.owner_references is Some,
        lease.metadata.owner_references->0@.len() == 1,
        lease.metadata.owner_references->0@[0].kind@ == "Pod"@,
        lease.metadata.owner_references->0@[0].name@ == manager.pod_name(),
        lease.metadata.owner_references->0@[0].uid@ == manager.id(),
        lease.metadata.owner_references->0@[0].api_version@ == "v1"@,
        lease.metadata.labels is Some,
        lease.metadata.labels->0@.contains_key("app"@),
        lease.metadata.labels->0@["app"@] == "external-pod-autoscaler"@,
        lease.metadata.labels->0@.contains_key("replica-id"@),
        lease.metadata.labels->0@["replica-id"@] == manager.id(),
        lease.metadata.deletion_timestamp is None,
        lease.spec is Some && lease.spec->0.renew_time == Some(now)
            && lease.spec->0.acquire_time == Some(now),
{
    reveal_strlit("app");
    reveal_strlit("replica-id");
    reveal_strlit("draining");
    assert("app"@.len() == 3);
    assert("replica-id"@.len() == 10);
    assert("draining"@.len() == 8);
    law_registration_is_seen(manager, lease, now, later);
}

/// Where a replica is reached is what its lease holds; without that, or without the lease,
/// it cannot be reached.
pub proof fn law_addresses(
    id: &str,
    fetched: Result<Lease, String>,
    r: Result<String, String>,
)
    requires
        call_ensures(get_replica_address, (id, fetched), r),
    ensures
        r is Ok == (fetched is Ok && fetched->Ok_0.spec is Some
            && fetched->Ok_0.spec->0.holder_identity is Some),
        r is Ok ==> r->Ok_0@ == fetched->Ok_0.spec->0.holder_identity->0@,
        fetched matches Err(reason) ==> r->Err_0@ == "Failed to get lease for replica "@ + id@
            + ": "@ + reason@,
        fetched is Ok && r is Err ==> r->Err_0@ == "Lease epa-replica-"@ + id@
            + " missing holder identity"@,
{
    reveal_strlit("Lease ");
    reveal_strlit("epa-replica-");
    reveal_strlit("Lease epa-replica-");
    assert("Lease "@ + ("epa-replica-"@ + id@) + " missing holder identity"@
        =~= "Lease epa-replica-"@ + id@ + " missing holder identity"@);
}

/// A lease that is there already is renewed, and any other failure to create it is one. A
/// lease is deleted where it is gone, or was not there.
pub proof fn law_outcomes_of_lease_calls(outcome: CallOutcome, step: RenewStep, gone: bool)
    requires
        call_ensures(after_create, (outcome,), step),
        call_ensures(deleted, (outcome,), gone),
    ensures
        step == RenewStep::Created <==> outcome == CallOutcome::Done,
        step == RenewStep::Patch <==> outcome == CallOutcome::Refused(409),
        gone <==> outcome == CallOutcome::Done || outcome == CallOutcome::Refused(404),
{
}

/// All replicas are the active and the draining ones.
pub proof fn law_lists_of_replicas(
    manager: &MembershipManager,
    active: Vec<String>,
    draining: Vec<String>,
    all: Vec<String>,
    id: Seq<char>,
)
    requires
        call_ensures(MembershipManager::get_active_replicas, (manager,), active),
        call_ensures(MembershipManager::get_draining_replicas, (manager,), draining),
        call_ensures(MembershipManager::get_all_replicas, (manager,), all),
    ensures
        listed(active@, id) == manager.active_set().contains(id),
        listed(draining@, id) == manager.draining_set().contains(id),
        listed(all@, id) == (listed(active@, id) || listed(draining@, id)),
{
    lemma_listed(active@, id);
    lemma_listed(draining@, id);
    lemma_listed(all@, id);
}

/// Whether a list of texts holds the given one.
pub open spec fn listed(texts: Seq<String>, id: Seq<char>) -> bool {
    exists|i: int| 0 <= i < texts.len() && (#[trigger] texts[i])@ == id
}

proof fn lemma_listed(texts: Seq<String>, id: Seq<char>)
    ensures
        listed(texts, id) == views(texts).to_set().contains(id),
{
    let ids = views(texts);
    assert(ids.len() == texts.len());
    if listed(texts, id) {
        let i = choose|i: int| 0 <= i < texts.len() && (#[trigger] texts[i])@ == id;
        assert(ids[i] == id);
    }
    if ids.contains(id) {
        let i = choose|i: int| 0 <= i < ids.len() && ids[i] == id;
        assert(texts[i]@ == id);
    }
}

// ---------------------------------------------------------------------------
// Owners
// ---------------------------------------------------------------------------

/// The owner of a resource is one of the replicas, and none of them has a greater hash
/// with the key of the resource, its namespace and its name.
pub proof fn law_owner_has_the_greatest_weight(
    manager: &MembershipManager,
    namespace: &str,
    name: &str,
    current: Option<String>,
    previous: Option<String>,
    other: Seq<char>,
)
    requires
        call_ensures(EpaOwnership::get_epa_owner, (manager, namespace, name), current),
        call_ensures(EpaOwnership::get_previous_epa_owner, (manager, namespace, name), previous),
    ensures
        current matches Some(id) ==> manager.active_set().contains(id@) && (
        manager.active_set().contains(other) ==> fnv_weight(other, namespace@ + "/"@ + name@)
            <= fnv_weight(id@, namespace@ + "/"@ + name@)),
        current is None ==> !manager.active_set().contains(other),
        previous matches Some(id) ==> (manager.active_set().contains(id@)
            || manager.draining_set().contains(id@)) && (manager.active_set().contains(other)
            || manager.draining_set().contains(other) ==> fnv_weight(
            other,
            namespace@ + "/"@ + name@,
        ) <= fnv_weight(id@, namespace@ + "/"@ + name@)),
        previous is None ==> !manager.active_set().contains(other)
            && !manager.draining_set().contains(other),
{
    if previous is None {
        assert(!manager.active_set().union(manager.draining_set()).contains(other));
    }
    if current is None {
        assert(!manager.active_set().contains(other));
    }
}

/// The heaviest of weights is one that none exceeds, and of equal ones the last.
pub proof fn law_heaviest(weights: &Vec<u64>, r: Option<usize>, j: int)
    requires
        call_ensures(heaviest, (weights,), r),
        0 <= j < weights@.len(),
    ensures
        r is Some,
        r->0 < weights@.len(),
        weights@[j] <= weights@[r->0 as int],
        j > r->0 ==> weights@[j] < weights@[r->0 as int],
{
}

/// A replica that is found to be the owner owns the resource from when it was first found
/// so, and has not lost it.
pub proof fn law_noted_as_owner(
    ownership: &mut EpaOwnership,
    key: String,
    period: u128,
    now: u64,
)
    requires
        call_ensures(EpaOwnership::note, (ownership, key, true, period, now), ()),
    ensures
        final(ownership)@.owned.contains_key(key@),
        final(ownership)@.owned[key@].evaluation_period == period,
        old(ownership)@.owned.contains_key(key@) ==> final(ownership)@.owned[key@].since
            == old(ownership)@.owned[key@].since,
        !old(ownership)@.owned.contains_key(key@) ==> final(ownership)@.owned[key@].since == now,
        !final(ownership)@.lost.contains_key(key@),
{
}

/// A replica that is found not to be the owner does not own the resource. Where it did, it
/// has lost it now, and remembers that for the evaluation period of then and five seconds
/// more; where it has lost it before, that loss counts, as long as it is remembered.
pub proof fn law_noted_as_not_owner(
    ownership: &mut EpaOwnership,
    key: String,
    period: u128,
    now: u64,
)
    requires
        call_ensures(EpaOwnership::note, (ownership, key, false, period, now), ()),
    ensures
        !final(ownership)@.owned.contains_key(key@),
        old(ownership)@.owned.contains_key(key@) && !old(ownership)@.lost.contains_key(key@)
            ==> final(ownership)@.lost.contains_key(key@) && final(ownership)@.lost[key@].at == now
            && final(ownership)@.lost[key@].evaluation_period == period,
        !old(ownership)@.owned.contains_key(key@) && !old(ownership)@.lost.contains_key(key@)
            ==> !final(ownership)@.lost.contains_key(key@),
        old(ownership)@.lost.contains_key(key@) ==> ({
            let loss = old(ownership)@.lost[key@];
            &&& final(ownership)@.lost.contains_key(key@) == (now - loss.at
                < loss.evaluation_period + 5_000_000_000)
            &&& final(ownership)@.lost.contains_key(key@) ==> final(ownership)@.lost[key@] == loss
        }),
{
}

/// What is noted of one resource leaves the others: those that are owned stay so, and the
/// losses are remembered until their time is over.
pub proof fn law_note_leaves_others(
    ownership: &mut EpaOwnership,
    key: String,
    mine: bool,
    period: u128,
    now: u64,
    other: Seq<char>,
)
    requires
        call_ensures(EpaOwnership::note, (ownership, key, mine, period, now), ()),
        other != key@,
    ensures
        final(ownership)@.owned.contains_key(other) == old(ownership)@.owned.contains_key(other),
        old(ownership)@.owned.contains_key(other) ==> final(ownership)@.owned[other]
            == old(ownership)@.owned[other],
        final(ownership)@.lost.contains_key(other) == (old(ownership)@.lost.contains_key(other)
            && now - old(ownership)@.lost[other].at
            < old(ownership)@.lost[other].evaluation_period + 5_000_000_000),
        final(ownership)@.lost.contains_key(other) ==> final(ownership)@.lost[other]
            == old(ownership)@.lost[other],
{
}

/// A replica collects the metrics of the resources that it owns or has lost. As the owner
/// it answers for a resource once a full evaluation period has passed; before that only
/// where no other replica was the owner before. It answers for what it has lost, and for
/// nothing else.
pub proof fn law_who_collects_and_who_answers(
    ownership: &EpaOwnership,
    namespace: &str,
    name: &str,
    key: &str,
    previous: &Option<String>,
    my_id: &str,
    now: u64,
    collects: bool,
    answers: bool,
)
    requires
        call_ensures(EpaOwnership::should_scrape_epa, (ownership, namespace, name), collects),
        call_ensures(EpaOwnership::may_serve, (ownership, key, previous, my_id, now), answers),
        key@ == namespace@ + "/"@ + name@,
    ensures
        collects == (ownership@.owned.contains_key(key@) || ownership@.lost.contains_key(key@)),
        !ownership@.owned.contains_key(key@) ==> answers == ownership@.lost.contains_key(key@),
        ownership@.owned.contains_key(key@) ==> answers == (now
            >= ownership@.owned[key@].since + ownership@.owned[key@].evaluation_period || (
        ownership@.owned[key@].evaluation_period == 0) || previous is None || previous->0@
            == my_id@),
{
}

/// A replica finds itself the owner of a resource where it is active and all other active
/// replicas weigh less, and does not where it is not active or one of them weighs more.
pub proof fn law_replica_finds_itself(
    manager: &MembershipManager,
    namespace: &str,
    name: &str,
    other: Seq<char>,
    r: bool,
)
    requires
        call_ensures(EpaOwnership::is_epa_owner, (manager, namespace, name), r),
    ensures
        r ==> manager.active_set().contains(manager.id()),
        r && manager.active_set().contains(other) ==> fnv_weight(other, namespace@ + "/"@ + name@)
            <= fnv_weight(manager.id(), namespace@ + "/"@ + name@),
        manager.active_set().contains(manager.id()) && (forall|id: Seq<char>|
            id != manager.id() && manager.active_set().contains(id) ==> #[trigger] fnv_weight(
                id,
                namespace@ + "/"@ + name@,
            ) < fnv_weight(manager.id(), namespace@ + "/"@ + name@)) ==> r,
{
    let key = namespace@ + "/"@ + name@;
    let owner = choose|owner: Option<Seq<char>>| #[trigger]
        is_owner(manager.active_set(), key, owner) && r == (owner == Some(manager.id()));
    if r {
        assert(wins(manager.active_set(), key, manager.id()));
    } else if let Some(id) = owner {
        assert(wins(manager.active_set(), key, id));
        if manager.active_set().contains(manager.id()) {
            assert(fnv_weight(manager.id(), key) <= fnv_weight(id, key));
        }
    } else {
        assert(manager.active_set().contains(manager.id()) ==> false);
    }
}

/// In a tick a replica holds a resource afterwards exactly where it may have found itself
/// the owner. A resource that it finds anew it holds from now on, with the evaluation
/// period of the tick.
pub proof fn law_tick_holds_what_is_owned(
    ownership: &mut EpaOwnership,
    manager: &MembershipManager,
    namespace: &str,
    name: &str,
    period: u128,
    now: u64,
)
    requires
        call_ensures(
            EpaOwnership::refresh_ownership,
            (ownership, manager, namespace, name, period, now),
            (),
        ),
    ensures
        ({
            let key = namespace@ + "/"@ + name@;
            let holds = final(ownership)@.owned.contains_key(key);
            &&& holds ==> manager.active_set().contains(manager.id())
            &&& holds ==> final(ownership)@.owned[key].evaluation_period == period
            &&& holds && !old(ownership)@.owned.contains_key(key)
                ==> final(ownership)@.owned[key].since == now
            &&& holds && old(ownership)@.owned.contains_key(key)
                ==> final(ownership)@.owned[key].since == old(ownership)@.owned[key].since
            &&& holds ==> !final(ownership)@.lost.contains_key(key)
            &&& !holds && old(ownership)@.owned.contains_key(key) && !old(
                ownership,
            )@.lost.contains_key(key) ==> final(ownership)@.lost.contains_key(key)
                && final(ownership)@.lost[key].at == now
                && final(ownership)@.lost[key].evaluation_period == period
            &&& manager.active_set().contains(manager.id()) && (forall|id: Seq<char>|
                id != manager.id() && manager.active_set().contains(id) ==> #[trigger] fnv_weight(
                    id,
                    key,
                ) < fnv_weight(manager.id(), key)) ==> holds
        }),
{
    let key = namespace@ + "/"@ + name@;
    let mine = choose|mine: bool| #[trigger]
        may_find(manager.active_set(), key, manager.id(), mine) && final(ownership)@ == old(
            ownership,
        )@.refreshed(key, mine, period, now);
    let owner = choose|owner: Option<Seq<char>>| #[trigger]
        is_owner(manager.active_set(), key, owner) && mine == (owner == Some(manager.id()));
    if mine {
        assert(wins(manager.active_set(), key, manager.id()));
    } else if let Some(id) = owner {
        assert(wins(manager.active_set(), key, id));
        if manager.active_set().contains(manager.id()) {
            assert(fnv_weight(manager.id(), key) <= fnv_weight(id, key));
        }
    } else {
        assert(manager.active_set().contains(manager.id()) ==> false);
    }
}

/// A replica answers for a resource that it has lost, and not for one that it has never
/// had. It answers as the owner once a full evaluation period has passed, and before that
/// at once where all other replicas, those that leave among them, weigh less, and not at
/// all where one of them weighs more.
pub proof fn law_replica_answers(
    ownership: &EpaOwnership,
    manager: &MembershipManager,
    namespace: &str,
    name: &str,
    now: u64,
    other: Seq<char>,
    r: bool,
)
    requires
        call_ensures(
            EpaOwnership::should_serve_epa,
            (ownership, manager, namespace, name, now),
            r,
        ),
    ensures
        ({
            let key = namespace@ + "/"@ + name@;
            let held = ownership@.owned.contains_key(key);
            let state = ownership@.owned[key];
            let me = manager.id();
            let there = |id: Seq<char>|
                manager.active_set().contains(id) || manager.draining_set().contains(id);
            &&& !held ==> r == ownership@.lost.contains_key(key)
            &&& held && now >= state.since + state.evaluation_period ==> r
            &&& held && there(me) && (forall|id: Seq<char>|
                id != me && (manager.active_set().contains(id) || manager.draining_set().contains(
                    id,
                )) ==> #[trigger] fnv_weight(id, key) < fnv_weight(me, key)) ==> r
            &&& held && state.since <= now < state.since + state.evaluation_period && there(other)
                && fnv_weight(other, key) > fnv_weight(me, key) ==> !r
        }),
{
    let key = namespace@ + "/"@ + name@;
    let all = manager.active_set().union(manager.draining_set());
    let previous = choose|previous: Option<Seq<char>>| #[trigger]
        is_owner(all, key, previous) && r == ownership@.serves(key, previous, manager.id(), now);
    assert(all.contains(other) == (manager.active_set().contains(other)
        || manager.draining_set().contains(other)));
    assert(all.contains(manager.id()) == (manager.active_set().contains(manager.id())
        || manager.draining_set().contains(manager.id())));
    if let Some(id) = previous {
        assert(wins(all, key, id));
        assert(all.contains(id) == (manager.active_set().contains(id)
            || manager.draining_set().contains(id)));
        if all.contains(manager.id()) {
            assert(fnv_weight(manager.id(), key) <= fnv_weight(id, key));
        }
        if all.contains(other) {
            assert(fnv_weight(other, key) <= fnv_weight(id, key));
        }
    }
}

/// A replica that is about to leave writes that in its lease and is still seen as live; what
/// it knows of the others stays.
pub proof fn law_replica_leaves(
    manager: &mut MembershipManager,
    after: &MembershipManager,
    now: i64,
    lease: Lease,
    draining: bool,
    live: bool,
)
    requires
        call_ensures(MembershipManager::mark_draining, (manager,), ()),
        *after == *final(manager),
        call_ensures(MembershipManager::lease, (after, now), lease),
        call_ensures(is_draining, (&lease,), draining),
        call_ensures(is_live, (&lease, now), live),
    ensures
        draining,
        live,
        after.id() == old(manager).id(),
        after.pod_ip() == old(manager).pod_ip(),
        after.pod_name() == old(manager).pod_name(),
        after.home() == old(manager).home(),
        after.port() == old(manager).port(),
        after.active_set() == old(manager).active_set(),
        after.draining_set() == old(manager).draining_set(),
{
    law_registration_is_seen(after, lease, now, now);
}

/// The key of a resource begins with its namespace and ends in its name, with a slash
/// between them; the name of a replica's lease ends in its ID.
pub proof fn law_keys_and_names(namespace: &str, name: &str, key: String, lease: String)
    requires
        call_ensures(epa_key, (namespace, name), key),
        call_ensures(name_lease, (name,), lease),
    ensures
        key@ == namespace@ + seq!['/'] + name@,
        lease@ == "epa-replica-"@ + name@,
{
    reveal_strlit("/");
    assert("/"@ =~= seq!['/']);
}

/// The replica that is chosen from a list is in it, and none in it weighs more.
pub proof fn law_replica_of_a_list(
    replicas: &Vec<String>,
    key: &str,
    r: Option<String>,
    j: int,
)
    requires
        call_ensures(highest_weight_replica, (replicas, key), r),
        0 <= j < replicas@.len(),
    ensures
        r is Some,
        exists|i: int| 0 <= i < replicas@.len() && (#[trigger] replicas@[i])@ == r->0@,
        fnv_weight(replicas@[j]@, key@) <= fnv_weight(r->0@, key@),
{
    assert(views(replicas@)[j] == replicas@[j]@);
    assert(views(replicas@).to_set().contains(replicas@[j]@));
}

} // verus!
