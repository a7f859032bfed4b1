//! What holds of the registry whatever is done to it, stated over the same
//! functions that the contracts of its operations use: `after_heartbeat` for
//! a heartbeat, `Map::remove` for a deletion, `afloat` and `sunk` for the two
//! halves of a sweep.

use crate::model::{Heartbeat, ShipRecord};
use crate::pushover::is_batch;
use crate::registry::{afloat, after_heartbeat, is_snapshot, keyed, mentions, records, sunk, Fleet};
use crate::server::{evicted_ships, SunkShip};
use crate::text::sunk_text;
use vstd::prelude::*;

verus! {

/// The deadline that the ship of `beat` has once the heartbeat is taken: the
/// one it registered with, or the heartbeat's where the ship was unknown.
pub open spec fn deadline_after(fleet: Fleet, beat: Heartbeat) -> nat {
    if fleet.contains_key(beat.identity) {
        fleet[beat.identity].max_offline
    } else {
        beat.max_offline
    }
}

/// One operation on the registry.
pub enum Event {
    /// The heartbeat `beat`, taken at the time `at`.
    Heartbeat { beat: Heartbeat, at: nat },
    /// The deletion of the ship `id`.
    Deletion { id: Seq<char> },
    /// A sweep at the time `now`.
    Sweep { now: nat },
}

/// The fleet after one operation.
pub open spec fn after_event(fleet: Fleet, event: Event) -> Fleet {
    match event {
        Event::Heartbeat { beat, at } => after_heartbeat(fleet, beat, at),
        Event::Deletion { id } => fleet.remove(id),
        Event::Sweep { now } => afloat(fleet, now),
    }
}

/// The fleet after the operations `events`, each taken as a whole and in
/// order: the order in which the registry's lock was handed out.
pub open spec fn after_events(fleet: Fleet, events: Seq<Event>) -> Fleet
    decreases events.len(),
{
    if events.len() == 0 {
        fleet
    } else {
        after_event(after_events(fleet, events.drop_last()), events.last())
    }
}

/// Nothing among `events` takes the ship `ship` out of the registry: no
/// deletion names it, and every sweep comes before its deadline as counted
/// from when it was last seen.
pub open spec fn spares(events: Seq<Event>, ship: ShipRecord) -> bool {
    forall|k: int|
        0 <= k < events.len() ==> match #[trigger] events[k] {
            Event::Heartbeat { .. } => true,
            Event::Deletion { id } => id != ship.identity,
            Event::Sweep { now } => now < ship.last_seen + ship.max_offline,
        }
}

/// Every one of `events` is a heartbeat.
pub open spec fn only_heartbeats(events: Seq<Event>) -> bool {
    forall|k: int| 0 <= k < events.len() ==> (#[trigger] events[k]) is Heartbeat
}

/// A heartbeat is never lost: once the registry has taken it, the ship is
/// registered under its identity and last seen no earlier than the
/// heartbeat's time. A new ship is last seen at that time and has the name
/// and the deadline of the heartbeat; a known ship keeps those it registered
/// with and is last seen no earlier than before. No other ship is touched.
pub proof fn heartbeat_is_recorded(fleet: Fleet, beat: Heartbeat, at: nat)
    ensures
        ({
            let taken = after_heartbeat(fleet, beat, at);
            &&& taken.contains_key(beat.identity)
            &&& at <= taken[beat.identity].last_seen
            &&& fleet.contains_key(beat.identity) ==> fleet[beat.identity].last_seen
                <= taken[beat.identity].last_seen
            &&& taken[beat.identity].max_offline == deadline_after(fleet, beat)
            &&& fleet.contains_key(beat.identity) ==> taken[beat.identity]
                == fleet[beat.identity].refreshed(at)
            &&& !fleet.contains_key(beat.identity) ==> taken[beat.identity]
                == ShipRecord::first(beat, at)
            &&& forall|other: Seq<char>|
                other != beat.identity ==> (taken.contains_key(other) <==> fleet.contains_key(
                    other,
                ))
            &&& forall|other: Seq<char>|
                other != beat.identity && fleet.contains_key(other) ==> taken[other] == fleet[other]
        }),
{
}

/// No ship is lost silently. A heartbeat removes nobody. A deletion removes
/// the ship it names and no other. A sweep removes a ship only where its
/// deadline has passed, and then hands it out with the record it had.
pub proof fn no_ship_is_lost_silently(
    fleet: Fleet,
    id: Seq<char>,
    beat: Heartbeat,
    at: nat,
    deleted: Seq<char>,
    now: nat,
)
    requires
        fleet.contains_key(id),
    ensures
        after_heartbeat(fleet, beat, at).contains_key(id),
        id != deleted ==> fleet.remove(deleted).contains_key(id),
        id != deleted ==> fleet.remove(deleted)[id] == fleet[id],
        !afloat(fleet, now).contains_key(id) ==> fleet[id].expired(now),
        !afloat(fleet, now).contains_key(id) ==> sunk(fleet, now).contains_key(id),
        !afloat(fleet, now).contains_key(id) ==> sunk(fleet, now)[id] == fleet[id],
{
}

/// A heartbeat that the registry took before a sweep decides that sweep for
/// its ship: the sweep finds the ship last seen no earlier than the
/// heartbeat. As long as the deadline counted from the heartbeat has not
/// passed, the ship stays in the registry as the heartbeat left it and is not
/// handed out as sunk.
pub proof fn heartbeat_before_sweep_survives(fleet: Fleet, beat: Heartbeat, at: nat, now: nat)
    requires
        now < at + deadline_after(fleet, beat),
    ensures
        ({
            let taken = after_heartbeat(fleet, beat, at);
            &&& afloat(taken, now).contains_key(beat.identity)
            &&& afloat(taken, now)[beat.identity] == taken[beat.identity]
            &&& !sunk(taken, now).contains_key(beat.identity)
        }),
{
}

/// A registered ship stays registered through every interleaving of
/// operations that spares it: whatever heartbeats are taken in between, its
/// own and those of others, at whatever times and in whatever order, it is
/// still there afterwards, under its identity, with the name and the deadline
/// it registered with, and last seen no earlier than before.
pub proof fn ship_survives_what_spares_it(fleet: Fleet, id: Seq<char>, events: Seq<Event>)
    requires
        keyed(fleet),
        fleet.contains_key(id),
        spares(events, fleet[id]),
    ensures
        ({
            let after = after_events(fleet, events);
            &&& after.contains_key(id)
            &&& after[id] == fleet[id].refreshed(after[id].last_seen)
            &&& fleet[id].last_seen <= after[id].last_seen
        }),
    decreases events.len(),
{
    if events.len() > 0 {
        let before = events.drop_last();
        assert forall|k: int| 0 <= k < before.len() implies match #[trigger] before[k] {
            Event::Heartbeat { .. } => true,
            Event::Deletion { id: deleted } => deleted != fleet[id].identity,
            Event::Sweep { now } => now < fleet[id].last_seen + fleet[id].max_offline,
        } by {
            assert(before[k] == events[k]);
        }
        ship_survives_what_spares_it(fleet, id, before);
        assert(events.last() == events[events.len() - 1]);
    }
}

/// A sweep splits the fleet in two: every ship is either still registered
/// afterwards or handed out as sunk, never both and never neither, and either
/// way with the record it had.
pub proof fn sweep_splits_the_fleet(fleet: Fleet, now: nat)
    ensures
        forall|id: Seq<char>|
            fleet.contains_key(id) ==> (afloat(fleet, now).contains_key(id) != sunk(
                fleet,
                now,
            ).contains_key(id)),
        forall|id: Seq<char>| #[trigger]
            afloat(fleet, now).contains_key(id) ==> {
                &&& fleet.contains_key(id)
                &&& afloat(fleet, now)[id] == fleet[id]
                &&& !fleet[id].expired(now)
            },
        forall|id: Seq<char>| #[trigger]
            sunk(fleet, now).contains_key(id) ==> {
                &&& fleet.contains_key(id)
                &&& sunk(fleet, now)[id] == fleet[id]
                &&& fleet[id].expired(now)
            },
{
}

/// `list` holds the record `ship` at the position `i` and no record of the
/// same identity anywhere else.
pub open spec fn holds_once_at(list: Seq<ShipRecord>, ship: ShipRecord, i: int) -> bool {
    &&& 0 <= i < list.len()
    &&& list[i] == ship
    &&& forall|j: int|
        0 <= j < list.len() && j != i ==> (#[trigger] list[j]).identity != ship.identity
}

/// A ship whose deadline has passed is handed out exactly once. Whatever
/// snapshot `evicted` of the sunk ships a sweep returns, the ship stands at
/// exactly one position of it, with the record it had; after the sweep it is
/// no longer registered, so that no later sweep hands it out again; and a
/// second sweep at the same time hands out nothing at all.
pub proof fn sunk_ship_is_reported_once(
    fleet: Fleet,
    id: Seq<char>,
    now: nat,
    evicted: Seq<ShipRecord>,
    later: nat,
)
    requires
        keyed(fleet),
        fleet.contains_key(id),
        fleet[id].expired(now),
        is_snapshot(evicted, sunk(fleet, now)),
    ensures
        exists|i: int| holds_once_at(evicted, fleet[id], i),
        !afloat(fleet, now).contains_key(id),
        !sunk(afloat(fleet, now), later).contains_key(id),
        sunk(afloat(fleet, now), now) == Fleet::empty(),
{
    assert(sunk(fleet, now).contains_key(id));
    assert(mentions(evicted, id));
    let i = choose|i: int| 0 <= i < evicted.len() && (#[trigger] evicted[i]).identity == id;
    assert(evicted[i] == fleet[id]);
    assert forall|j: int| 0 <= j < evicted.len() && j != i implies (#[trigger] evicted[j]).identity
        != fleet[id].identity by {
        if j < i {
            assert(evicted[j].identity != evicted[i].identity);
        } else {
            assert(evicted[i].identity != evicted[j].identity);
        }
    }
    assert(holds_once_at(evicted, fleet[id], i));
    assert(sunk(afloat(fleet, now), now) =~= Fleet::empty());
}

/// A ship whose deadline has passed gets exactly one batch of notices.
/// Whatever reports a scan for sunk ships returns, exactly one of them is
/// about the ship; it holds the record the ship had, and one notice for each
/// receiver, worded from that record.
pub proof fn sunk_ship_gets_one_batch(
    fleet: Fleet,
    id: Seq<char>,
    now: nat,
    reports: Seq<SunkShip>,
    token: Seq<char>,
    receivers: Seq<String>,
)
    requires
        keyed(fleet),
        fleet.contains_key(id),
        fleet[id].expired(now),
        is_snapshot(records(evicted_ships(reports)), sunk(fleet, now)),
        forall|i: int|
            0 <= i < reports.len() ==> is_batch(
                (#[trigger] reports[i]).notices@,
                sunk_text(reports[i].ship@),
                token,
                receivers,
            ),
    ensures
        exists|i: int|
            {
                &&& holds_once_at(records(evicted_ships(reports)), fleet[id], i)
                &&& is_batch(reports[i].notices@, sunk_text(fleet[id]), token, receivers)
                &&& reports[i].notices@.len() == receivers.len()
            },
{
    let evicted = records(evicted_ships(reports));
    sunk_ship_is_reported_once(fleet, id, now, evicted, now);
    let i = choose|i: int| holds_once_at(evicted, fleet[id], i);
    assert(reports[i].ship@ == evicted[i]);
}

/// No operation moves a record to another identity: where every record is
/// filed under the identity it carries, it still is after a heartbeat, a
/// deletion or a sweep, and so are the ships that a sweep hands out.
pub proof fn records_stay_keyed(fleet: Fleet, beat: Heartbeat, at: nat, id: Seq<char>, now: nat)
    requires
        keyed(fleet),
    ensures
        keyed(after_heartbeat(fleet, beat, at)),
        keyed(fleet.remove(id)),
        keyed(afloat(fleet, now)),
        keyed(sunk(fleet, now)),
{
    let taken = after_heartbeat(fleet, beat, at);
    assert forall|k: Seq<char>| taken.contains_key(k) implies (#[trigger] taken[k]).identity
        == k by {
        if fleet.contains_key(k) {
            assert(fleet[k].identity == k);
        }
    }
    let rest = fleet.remove(id);
    assert forall|k: Seq<char>| rest.contains_key(k) implies (#[trigger] rest[k]).identity == k by {
        assert(fleet[k].identity == k);
    }
    let kept = afloat(fleet, now);
    assert forall|k: Seq<char>| kept.contains_key(k) implies (#[trigger] kept[k]).identity == k by {
        assert(fleet[k].identity == k);
    }
    let gone = sunk(fleet, now);
    assert forall|k: Seq<char>| gone.contains_key(k) implies (#[trigger] gone[k]).identity == k by {
        assert(fleet[k].identity == k);
    }
}

/// The time at which a ship was last seen never moves backward. Take any
/// operations in any interleaving and with any times, and look at the
/// registry after the first `i` and after the first `j` of them: a ship that
/// has been registered from the one moment to the other is last seen no
/// earlier at the later one, and it has kept its name and its deadline.
pub proof fn last_seen_is_monotonic(
    fleet: Fleet,
    events: Seq<Event>,
    id: Seq<char>,
    i: int,
    j: int,
)
    requires
        0 <= i <= j <= events.len(),
        forall|k: int|
            i <= k <= j ==> #[trigger] after_events(fleet, events.take(k)).contains_key(id),
    ensures
        ({
            let earlier = after_events(fleet, events.take(i))[id];
            let later = after_events(fleet, events.take(j))[id];
            &&& earlier.last_seen <= later.last_seen
            &&& later == earlier.refreshed(later.last_seen)
        }),
    decreases j - i,
{
    if i < j {
        let taken = events.take(j);
        assert(taken.drop_last() =~= events.take(j - 1));
        assert(taken.last() == events[j - 1]);
        assert(after_events(fleet, events.take(j - 1)).contains_key(id));
        assert(after_events(fleet, events.take(j)).contains_key(id));
        last_seen_is_monotonic(fleet, events, id, i, j - 1);
    }
}

/// Over heartbeats alone, whatever their times and their order: a ship that
/// is registered stays registered, and the time it was last seen at never
/// decreases from one heartbeat to the next.
pub proof fn heartbeats_never_turn_last_seen_back(
    fleet: Fleet,
    events: Seq<Event>,
    id: Seq<char>,
    i: int,
    j: int,
)
    requires
        only_heartbeats(events),
        0 <= i <= j <= events.len(),
        after_events(fleet, events.take(i)).contains_key(id),
    ensures
        ({
            let earlier = after_events(fleet, events.take(i));
            let later = after_events(fleet, events.take(j));
            &&& later.contains_key(id)
            &&& earlier[id].last_seen <= later[id].last_seen
        }),
{
    assert forall|k: int| i <= k <= j implies #[trigger] after_events(
        fleet,
        events.take(k),
    ).contains_key(id) by {
        lemma_stays_registered(fleet, events, id, i, k);
    }
    last_seen_is_monotonic(fleet, events, id, i, j);
}

/// Heartbeats remove nobody.
proof fn lemma_stays_registered(fleet: Fleet, events: Seq<Event>, id: Seq<char>, i: int, k: int)
    requires
        only_heartbeats(events),
        0 <= i <= k <= events.len(),
        after_events(fleet, events.take(i)).contains_key(id),
    ensures
        after_events(fleet, events.take(k)).contains_key(id),
    decreases k - i,
{
    if i < k {
        let taken = events.take(k);
        assert(taken.drop_last() =~= events.take(k - 1));
        assert(taken.last() == events[k - 1]);
        lemma_stays_registered(fleet, events, id, i, k - 1);
    }
}

/// Deleting is idempotent. After a deletion the identity is not registered;
/// deleting an identity that is not registered finds nothing and leaves the
/// registry as it is; so a second deletion, and any after it, changes nothing.
pub proof fn deletion_is_idempotent(fleet: Fleet, id: Seq<char>)
    ensures
        !fleet.remove(id).contains_key(id),
        !fleet.contains_key(id) ==> fleet.remove(id) == fleet,
        fleet.remove(id).remove(id) == fleet.remove(id),
{
    assert(fleet.remove(id).remove(id) =~= fleet.remove(id));
    if !fleet.contains_key(id) {
        assert(fleet.remove(id) =~= fleet);
    }
}

} // verus!
