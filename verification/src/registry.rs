//! The registry of live ships: the single source of truth that heartbeats,
//! queries, deletions and the liveness sweep all work on.
//!
//! Every operation takes the registry by reference, so a caller that shares it
//! between tasks behind one lock gets each operation as one critical section.

use crate::model::{Heartbeat, ShipAliveReq, ShipInfo, ShipRecord};
use vstd::prelude::*;

verus! {

/// The registry as a mathematical value: identity to record.
pub type Fleet = Map<Seq<char>, ShipRecord>;

/// The fleet after a heartbeat at `now`: an unknown identity gets a record
/// last seen at `now`; a known one keeps its hostname and deadline and is
/// last seen at `now` or when it was seen before, whichever is later.
pub open spec fn after_heartbeat(fleet: Fleet, beat: Heartbeat, now: nat) -> Fleet {
    if fleet.contains_key(beat.identity) {
        fleet.insert(beat.identity, fleet[beat.identity].refreshed(now))
    } else {
        fleet.insert(beat.identity, ShipRecord::first(beat, now))
    }
}

/// The ships whose deadline has not passed at `now`.
pub open spec fn afloat(fleet: Fleet, now: nat) -> Fleet {
    Map::new(
        |id: Seq<char>| fleet.contains_key(id) && !fleet[id].expired(now),
        |id: Seq<char>| fleet[id],
    )
}

/// The ships whose deadline has passed at `now`.
pub open spec fn sunk(fleet: Fleet, now: nat) -> Fleet {
    Map::new(
        |id: Seq<char>| fleet.contains_key(id) && fleet[id].expired(now),
        |id: Seq<char>| fleet[id],
    )
}

/// Every record is filed under the identity it carries.
pub open spec fn keyed(fleet: Fleet) -> bool {
    forall|id: Seq<char>| fleet.contains_key(id) ==> (#[trigger] fleet[id]).identity == id
}

/// The records that a sequence of ships stands for.
pub open spec fn records(ships: Seq<ShipInfo>) -> Seq<ShipRecord> {
    Seq::new(ships.len(), |i: int| ships[i]@)
}

/// Whether some record of `list` carries the identity `id`.
pub open spec fn mentions(list: Seq<ShipRecord>, id: Seq<char>) -> bool {
    exists|i: int| 0 <= i < list.len() && (#[trigger] list[i]).identity == id
}

/// `list` is a snapshot of `fleet`: every ship of the fleet once, as the fleet
/// has it, and nothing else. The order is not fixed.
pub open spec fn is_snapshot(list: Seq<ShipRecord>, fleet: Fleet) -> bool {
    &&& forall|i: int|
        0 <= i < list.len() ==> fleet.contains_key((#[trigger] list[i]).identity)
            && fleet[list[i].identity] == list[i]
    &&& forall|i: int, j: int|
        0 <= i < j < list.len() ==> (#[trigger] list[i]).identity != (#[trigger] list[j]).identity
    &&& forall|id: Seq<char>| fleet.contains_key(id) ==> #[trigger] mentions(list, id)
}

/// A snapshot has exactly one entry for each ship: the fleet it lists is
/// finite and has as many ships as the snapshot has entries.
pub proof fn lemma_snapshot_counts(list: Seq<ShipRecord>, fleet: Fleet)
    requires
        is_snapshot(list, fleet),
    ensures
        fleet.dom().finite(),
        fleet.dom().len() == list.len(),
{
    let ids = Seq::new(list.len(), |i: int| list[i].identity);
    assert(ids.no_duplicates()) by {
        assert forall|i: int, j: int|
            0 <= i < ids.len() && 0 <= j < ids.len() && i != j implies ids[i] != ids[j] by {
            if i < j {
                assert(list[i].identity != list[j].identity);
            } else {
                assert(list[j].identity != list[i].identity);
            }
        }
    }
    assert(ids.to_set() =~= fleet.dom()) by {
        assert forall|id: Seq<char>| ids.to_set().contains(id) <==> fleet.dom().contains(id) by {
            if ids.contains(id) {
                let i = choose|i: int| 0 <= i < ids.len() && ids[i] == id;
                assert(fleet.contains_key(list[i].identity));
            }
            if fleet.contains_key(id) {
                assert(mentions(list, id));
                let i = choose|i: int| 0 <= i < list.len() && (#[trigger] list[i]).identity == id;
                assert(ids[i] == id);
            }
        }
    }
    vstd::seq_lib::seq_to_set_is_finite(ids);
    ids.unique_seq_to_set();
}

/// What a heartbeat did to the registry.
#[derive(Debug, Clone, Copy, PartialEq, Eq, Structural)]
pub enum Upsert {
    /// The identity was unknown: a record was created.
    Created,
    /// The identity was known: its record was refreshed.
    Refreshed,
}

/// The ships that are considered alive, at most one per identity. They are
/// kept in the order in which they registered and found by their identity.
pub struct Registry {
    ships: Vec<ShipInfo>,
}

spec fn distinct(ships: Seq<ShipInfo>) -> bool {
    forall|i: int, j: int|
        0 <= i < j < ships.len() ==> (#[trigger] ships[i])@.identity != (
        #[trigger] ships[j])@.identity
}

spec fn holds(ships: Seq<ShipInfo>, id: Seq<char>) -> bool {
    exists|i: int| 0 <= i < ships.len() && (#[trigger] ships[i])@.identity == id
}

spec fn slot(ships: Seq<ShipInfo>, id: Seq<char>) -> int {
    choose|i: int| 0 <= i < ships.len() && (#[trigger] ships[i])@.identity == id
}

spec fn table(ships: Seq<ShipInfo>) -> Fleet {
    Map::new(|id: Seq<char>| holds(ships, id), |id: Seq<char>| ships[slot(ships, id)]@)
}

proof fn lemma_table_at(ships: Seq<ShipInfo>, i: int)
    requires
        distinct(ships),
        0 <= i < ships.len(),
    ensures
        table(ships).contains_key(ships[i]@.identity),
        table(ships)[ships[i]@.identity] == ships[i]@,
{
    let id = ships[i]@.identity;
    assert(holds(ships, id));
    assert(slot(ships, id) == i);
}

/// The table of `ships` is `fleet` as soon as `fleet` has every ship under
/// its identity and has no other key.
proof fn lemma_table_is(ships: Seq<ShipInfo>, fleet: Fleet)
    requires
        distinct(ships),
        forall|i: int|
            0 <= i < ships.len() ==> fleet.contains_key((#[trigger] ships[i])@.identity)
                && fleet[ships[i]@.identity] == ships[i]@,
        forall|id: Seq<char>| fleet.contains_key(id) ==> holds(ships, id),
    ensures
        table(ships) == fleet,
{
    assert forall|id: Seq<char>| table(ships).contains_key(id) implies fleet.contains_key(id)
        && #[trigger] table(ships)[id] == fleet[id] by {
        lemma_table_at(ships, slot(ships, id));
    }
    assert(table(ships) =~= fleet);
}

proof fn lemma_table_push(ships: Seq<ShipInfo>, ship: ShipInfo)
    requires
        distinct(ships),
        !holds(ships, ship@.identity),
    ensures
        distinct(ships.push(ship)),
        table(ships.push(ship)) == table(ships).insert(ship@.identity, ship@),
{
    let next = ships.push(ship);
    let fleet = table(ships).insert(ship@.identity, ship@);
    assert forall|i: int| 0 <= i < next.len() implies fleet.contains_key(
        (#[trigger] next[i])@.identity,
    ) && fleet[next[i]@.identity] == next[i]@ by {
        if i < ships.len() {
            lemma_table_at(ships, i);
        }
    }
    assert forall|id: Seq<char>| fleet.contains_key(id) implies holds(next, id) by {
        let i = if id == ship@.identity {
            ships.len() as int
        } else {
            slot(ships, id)
        };
        assert(next[i]@.identity == id);
    }
    lemma_table_is(next, fleet);
}

proof fn lemma_table_update(ships: Seq<ShipInfo>, i: int, ship: ShipInfo)
    requires
        distinct(ships),
        0 <= i < ships.len(),
        ship@.identity == ships[i]@.identity,
    ensures
        distinct(ships.update(i, ship)),
        table(ships.update(i, ship)) == table(ships).insert(ship@.identity, ship@),
{
    let next = ships.update(i, ship);
    let fleet = table(ships).insert(ship@.identity, ship@);
    assert forall|a: int, b: int| 0 <= a < b < next.len() implies (#[trigger] next[a])@.identity
        != (#[trigger] next[b])@.identity by {
        assert(ships[a]@.identity != ships[b]@.identity);
    }
    assert forall|a: int| 0 <= a < next.len() implies fleet.contains_key(
        (#[trigger] next[a])@.identity,
    ) && fleet[next[a]@.identity] == next[a]@ by {
        lemma_table_at(ships, a);
        if a < i {
            assert(ships[a]@.identity != ships[i]@.identity);
        } else if a > i {
            assert(ships[i]@.identity != ships[a]@.identity);
        }
    }
    assert forall|id: Seq<char>| fleet.contains_key(id) implies holds(next, id) by {
        let a = if id == ship@.identity {
            i
        } else {
            slot(ships, id)
        };
        assert(next[a]@.identity == id);
    }
    lemma_table_is(next, fleet);
}

proof fn lemma_table_remove(ships: Seq<ShipInfo>, i: int)
    requires
        distinct(ships),
        0 <= i < ships.len(),
    ensures
        distinct(ships.remove(i)),
        table(ships.remove(i)) == table(ships).remove(ships[i]@.identity),
{
    let next = ships.remove(i);
    let fleet = table(ships).remove(ships[i]@.identity);
    let from = |a: int| if a < i { a } else { a + 1 };
    assert forall|a: int, b: int| 0 <= a < b < next.len() implies (#[trigger] next[a])@.identity
        != (#[trigger] next[b])@.identity by {
        assert(ships[from(a)]@.identity != ships[from(b)]@.identity);
    }
    assert forall|a: int| 0 <= a < next.len() implies fleet.contains_key(
        (#[trigger] next[a])@.identity,
    ) && fleet[next[a]@.identity] == next[a]@ by {
        lemma_table_at(ships, from(a));
        if a < i {
            assert(ships[a]@.identity != ships[i]@.identity);
        } else {
            assert(ships[i]@.identity != ships[a + 1]@.identity);
        }
    }
    assert forall|id: Seq<char>| fleet.contains_key(id) implies holds(next, id) by {
        let a = slot(ships, id);
        let b = if a < i { a } else { a - 1 };
        assert(next[b]@.identity == id);
    }
    lemma_table_is(next, fleet);
}

impl View for Registry {
    type V = Fleet;

    closed spec fn view(&self) -> Fleet {
        table(self.ships@)
    }
}

impl Registry {
    #[verifier::type_invariant]
    spec fn one_record_per_identity(self) -> bool {
        distinct(self.ships@)
    }

    /// A registry files every record under the identity that the record
    /// carries.
    pub proof fn lemma_keyed(self)
        ensures
            keyed(self@),
    {
    }

    /// An empty registry.
    pub fn new() -> (registry: Self)
        ensures
            registry@ == Fleet::empty(),
    {
        let registry = Registry { ships: Vec::new() };
        assert(registry@ =~= Fleet::empty());
        registry
    }

    fn find(&self, identity: &String) -> (found: Option<usize>)
        ensures
            match found {
                Some(i) => i < self.ships.len() && self.ships[i as int]@.identity == identity@,
                None => !holds(self.ships@, identity@),
            },
    {
        let mut i: usize = 0;
        while i < self.ships.len()
            invariant
                i <= self.ships.len(),
                forall|k: int| 0 <= k < i ==> (#[trigger] self.ships[k])@.identity != identity@,
            decreases self.ships.len() - i,
        {
            if self.ships[i].request.uuid == *identity {
                return Some(i);
            }
            i += 1;
        }
        None
    }

    /// Records a heartbeat received at `now`. A known ship is refreshed: the
    /// time it was last seen at moves up to `now` and never back.
    pub fn upsert_heartbeat(&mut self, request: ShipAliveReq, now: u64) -> (outcome: Upsert)
        ensures
            final(self)@ == after_heartbeat(old(self)@, request@, now as nat),
            outcome == if old(self)@.contains_key(request@.identity) {
                Upsert::Refreshed
            } else {
                Upsert::Created
            },
    {
        proof {
            use_type_invariant(&*self);
        }
        match self.find(&request.uuid) {
            Some(i) => {
                proof {
                    lemma_table_at(self.ships@, i as int);
                }
                let mut ships: Vec<ShipInfo> = Vec::new();
                core::mem::swap(&mut ships, &mut self.ships);
                if now > ships[i].last_seen {
                    ships[i].last_seen = now;
                }
                proof {
                    lemma_table_update(old(self).ships@, i as int, ships@[i as int]);
                    assert(ships@ =~= old(self).ships@.update(i as int, ships@[i as int]));
                }
                self.ships = ships;
                Upsert::Refreshed
            },
            None => {
                let ship = ShipInfo { request, last_seen: now };
                proof {
                    lemma_table_push(self.ships@, ship);
                }
                let mut ships: Vec<ShipInfo> = Vec::new();
                core::mem::swap(&mut ships, &mut self.ships);
                ships.push(ship);
                self.ships = ships;
                Upsert::Created
            },
        }
    }

    /// A snapshot of the record of `identity`, if the ship is registered.
    pub fn get(&self, identity: &str) -> (found: Option<ShipInfo>)
        ensures
            match found {
                Some(ship) => self@.contains_key(identity@) && ship@ == self@[identity@],
                None => !self@.contains_key(identity@),
            },
    {
        proof {
            use_type_invariant(self);
        }
        let key = identity.to_owned();
        match self.find(&key) {
            Some(i) => {
                proof {
                    lemma_table_at(self.ships@, i as int);
                }
                Some(self.ships[i].clone())
            },
            None => None,
        }
    }

    /// A snapshot of all records, in no particular order.
    pub fn list(&self) -> (all: Vec<ShipInfo>)
        ensures
            is_snapshot(records(all@), self@),
            all@.len() == self@.dom().len(),
    {
        proof {
            use_type_invariant(self);
        }
        let mut all: Vec<ShipInfo> = Vec::new();
        let mut i: usize = 0;
        while i < self.ships.len()
            invariant
                i <= self.ships.len(),
                all.len() == i,
                forall|k: int| 0 <= k < i ==> (#[trigger] all[k])@ == self.ships[k]@,
            decreases self.ships.len() - i,
        {
            all.push(self.ships[i].clone());
            i += 1;
        }
        proof {
            let list = records(all@);
            assert forall|k: int| 0 <= k < list.len() implies list[k] == (
            #[trigger] self.ships[k])@ by {
                assert(all[k]@ == self.ships[k]@);
            }
            assert forall|k: int| 0 <= k < list.len() implies self@.contains_key(
                (#[trigger] list[k]).identity,
            ) && self@[list[k].identity] == list[k] by {
                lemma_table_at(self.ships@, k);
            }
            assert forall|id: Seq<char>| self@.contains_key(id) implies #[trigger] mentions(
                list,
                id,
            ) by {
                assert(list[slot(self.ships@, id)].identity == id);
            }
            lemma_snapshot_counts(list, self@);
        }
        all
    }

    /// Deletes the record of `identity` and hands it back, if there was one.
    pub fn remove(&mut self, identity: &str) -> (removed: Option<ShipInfo>)
        ensures
            final(self)@ == old(self)@.remove(identity@),
            match removed {
                Some(ship) => old(self)@.contains_key(identity@) && ship@ == old(self)@[identity@],
                None => !old(self)@.contains_key(identity@) && final(self)@ == old(self)@,
            },
    {
        proof {
            use_type_invariant(&*self);
        }
        let key = identity.to_owned();
        match self.find(&key) {
            Some(i) => {
                proof {
                    lemma_table_at(self.ships@, i as int);
                    lemma_table_remove(self.ships@, i as int);
                }
                let mut ships: Vec<ShipInfo> = Vec::new();
                core::mem::swap(&mut ships, &mut self.ships);
                let ship = ships.remove(i);
                self.ships = ships;
                Some(ship)
            },
            None => {
                assert(self@.remove(identity@) =~= self@);
                None
            },
        }
    }

    /// Removes every ship whose deadline has passed at `now` and hands back
    /// the removed records, each as it was when it was removed. Finding the
    /// expired ships and removing them is one step: no heartbeat can come in
    /// between.
    pub fn sweep_expired(&mut self, now: u64) -> (evicted: Vec<ShipInfo>)
        ensures
            final(self)@ == afloat(old(self)@, now as nat),
            is_snapshot(records(evicted@), sunk(old(self)@, now as nat)),
            evicted@.len() == sunk(old(self)@, now as nat).dom().len(),
    {
        proof {
            use_type_invariant(&*self);
        }
        let ghost fleet = self@;
        let mut ships: Vec<ShipInfo> = Vec::new();
        core::mem::swap(&mut ships, &mut self.ships);
        let mut evicted: Vec<ShipInfo> = Vec::new();
        let mut i: usize = 0;
        while i < ships.len()
            invariant
                i <= ships.len(),
                sweeping(fleet, ships@, i as int, records(evicted@), now as nat),
            decreases ships.len() - i,
        {
            if ships[i].is_sunk(now) {
                let ghost kept = ships@;
                let ghost gone = records(evicted@);
                proof {
                    lemma_table_at(kept, i as int);
                    lemma_table_remove(kept, i as int);
                }
                let ship = ships.remove(i);
                evicted.push(ship);
                proof {
                    let list = records(evicted@);
                    assert(list =~= gone.push(ship@));
                    assert(list[gone.len() as int].identity == ship@.identity);
                    assert forall|id: Seq<char>| fleet.contains_key(id) implies table(
                        ships@,
                    ).contains_key(id) || #[trigger] mentions(list, id) by {
                        if id != ship@.identity && !table(kept).contains_key(id) {
                            assert(mentions(gone, id));
                            let k = choose|k: int|
                                0 <= k < gone.len() && (#[trigger] gone[k]).identity == id;
                            assert(list[k].identity == id);
                        }
                    }
                    assert forall|k: int| 0 <= k < i implies !(#[trigger] ships[k])@.expired(
                        now as nat,
                    ) by {
                        assert(ships[k] == kept[k]);
                    }
                }
            } else {
                i += 1;
            }
        }
        proof {
            let list = records(evicted@);
            let kept = afloat(fleet, now as nat);
            let lost = sunk(fleet, now as nat);
            assert forall|id: Seq<char>| table(ships@).contains_key(id) implies !fleet[id].expired(
                now as nat,
            ) by {
                lemma_table_at(ships@, slot(ships@, id));
            }
            assert forall|id: Seq<char>| kept.contains_key(id) implies table(ships@).contains_key(
                id,
            ) by {
                if mentions(list, id) {
                    let k = choose|k: int|
                        0 <= k < list.len() && (#[trigger] list[k]).identity == id;
                    assert(list[k].expired(now as nat));
                }
            }
            assert(table(ships@) =~= kept);
            assert forall|id: Seq<char>| lost.contains_key(id) implies #[trigger] mentions(
                list,
                id,
            ) by {
                assert(!table(ships@).contains_key(id));
            }
            lemma_snapshot_counts(list, lost);
        }
        self.ships = ships;
        evicted
    }
}

/// How far a sweep at `now` has come with `fleet`: `kept` holds the ships
/// that are still in the registry, the first `checked` of them found afloat,
/// and `gone` the ships evicted so far.
spec fn sweeping(
    fleet: Fleet,
    kept: Seq<ShipInfo>,
    checked: int,
    gone: Seq<ShipRecord>,
    now: nat,
) -> bool {
    &&& distinct(kept)
    &&& forall|k: int| 0 <= k < checked ==> !(#[trigger] kept[k])@.expired(now)
    &&& forall|id: Seq<char>| #[trigger]
        table(kept).contains_key(id) ==> fleet.contains_key(id) && table(kept)[id] == fleet[id]
    &&& forall|id: Seq<char>|
        fleet.contains_key(id) ==> table(kept).contains_key(id) || #[trigger] mentions(gone, id)
    &&& forall|k: int|
        0 <= k < gone.len() ==> {
            let ship = #[trigger] gone[k];
            &&& fleet.contains_key(ship.identity)
            &&& fleet[ship.identity] == ship
            &&& ship.expired(now)
            &&& !table(kept).contains_key(ship.identity)
        }
    &&& forall|a: int, b: int|
        0 <= a < b < gone.len() ==> (#[trigger] gone[a]).identity != (#[trigger] gone[b]).identity
}

} // verus!
