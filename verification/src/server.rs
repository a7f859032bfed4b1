//! What the beacon does with a request and with a tick of the sweeper, as
//! functions on the registry. The caller holds the lock, reads the clock,
//! and sends the notices that come back once the registry is released.

use crate::model::{ShipAliveReq, ShipInfo};
use crate::pushover::{dispatch, is_batch, PushOverMsg};
use crate::registry::{
    afloat, after_heartbeat, is_snapshot, mentions, records, sunk, Registry, Upsert,
};
use crate::text::{
    not_found_message, not_found_text, registered_message, registered_text, sunk_message,
    sunk_text,
};
use vstd::prelude::*;

verus! {

/// Beacon stands as the watcher of ships.
#[derive(Debug, PartialEq, Eq)]
pub struct CmdOpts {
    /// The application's credential at the notification provider.
    pub app_token: String,
    /// The receivers to notify.
    pub user_tokens: Vec<String>,
    /// Seconds between two scans for sunk ships.
    pub interval: u64,
}

/// The answer for an identity that is not registered, with its wording.
#[derive(Debug, PartialEq, Eq)]
pub struct NotFound(pub String);

/// The outcome of a heartbeat: the reply to the ship, what the heartbeat did
/// to the registry, and the notices to send where it registered a new ship.
#[derive(Debug, PartialEq, Eq)]
pub struct Registration {
    pub reply: &'static str,
    pub outcome: Upsert,
    pub notices: Vec<PushOverMsg>,
}

/// One evicted ship, as it was when it was evicted, with the notices that
/// report it.
#[derive(Debug, PartialEq, Eq)]
pub struct SunkShip {
    pub ship: ShipInfo,
    pub notices: Vec<PushOverMsg>,
}

/// The ships of a sequence of evictions.
pub open spec fn evicted_ships(reports: Seq<SunkShip>) -> Seq<ShipInfo> {
    Seq::new(reports.len(), |i: int| reports[i].ship)
}

/// The record of `uuid`, or that there is none.
pub fn get_ship(uuid: &str, registry: &Registry) -> (found: Result<ShipInfo, NotFound>)
    ensures
        match found {
            Ok(ship) => registry@.contains_key(uuid@) && ship@ == registry@[uuid@],
            Err(missing) => !registry@.contains_key(uuid@) && missing.0@ == not_found_text(uuid@),
        },
{
    match registry.get(uuid) {
        Some(ship) => Ok(ship),
        None => Err(NotFound(not_found_message(uuid))),
    }
}

/// All records, in no particular order.
pub fn get_ships(registry: &Registry) -> (all: Vec<ShipInfo>)
    ensures
        is_snapshot(records(all@), registry@),
        all@.len() == registry@.dom().len(),
{
    registry.list()
}

/// Deletes the record of `uuid`, or says that there is none.
pub fn del_ship(uuid: &str, registry: &mut Registry) -> (done: Result<&'static str, NotFound>)
    ensures
        final(registry)@ == old(registry)@.remove(uuid@),
        match done {
            Ok(reply) => old(registry)@.contains_key(uuid@) && reply@ == "ok"@,
            Err(missing) => {
                &&& !old(registry)@.contains_key(uuid@)
                &&& final(registry)@ == old(registry)@
                &&& missing.0@ == not_found_text(uuid@)
            },
        },
{
    match registry.remove(uuid) {
        Some(_) => Ok("ok"),
        None => Err(NotFound(not_found_message(uuid))),
    }
}

/// Takes a heartbeat received at `now`. The reply is the same whether the
/// ship was known or not; a new ship is announced to every receiver.
pub fn register_ship(
    ship: ShipAliveReq,
    registry: &mut Registry,
    opts: &CmdOpts,
    now: u64,
) -> (done: Registration)
    ensures
        final(registry)@ == after_heartbeat(old(registry)@, ship@, now as nat),
        done.reply@ == "ok"@,
        if old(registry)@.contains_key(ship@.identity) {
            done.outcome == Upsert::Refreshed && done.notices@.len() == 0
        } else {
            done.outcome == Upsert::Created && is_batch(
                done.notices@,
                registered_text(ship@),
                opts.app_token@,
                opts.user_tokens@,
            )
        },
{
    let msg = registered_message(&ship);
    let outcome = registry.upsert_heartbeat(ship, now);
    let notices = match outcome {
        Upsert::Created => dispatch(msg.as_str(), opts.app_token.as_str(), &opts.user_tokens),
        Upsert::Refreshed => Vec::new(),
    };
    Registration { reply: "ok", outcome, notices }
}

/// One scan for sunk ships at `now`: evicts every ship whose deadline has
/// passed and prepares, for each of them, one batch of notices.
pub fn check_sunk_ships(
    registry: &mut Registry,
    opts: &CmdOpts,
    now: u64,
) -> (reports: Vec<SunkShip>)
    ensures
        final(registry)@ == afloat(old(registry)@, now as nat),
        is_snapshot(records(evicted_ships(reports@)), sunk(old(registry)@, now as nat)),
        reports@.len() == sunk(old(registry)@, now as nat).dom().len(),
        forall|i: int|
            0 <= i < reports.len() ==> is_batch(
                (#[trigger] reports[i]).notices@,
                sunk_text(reports[i].ship@),
                opts.app_token@,
                opts.user_tokens@,
            ),
{
    let mut evicted = registry.sweep_expired(now);
    let ghost gone = evicted@;
    let mut reports: Vec<SunkShip> = Vec::new();
    while evicted.len() > 0
        invariant
            evicted.len() + reports.len() == gone.len(),
            forall|k: int| 0 <= k < evicted.len() ==> (#[trigger] evicted[k]) == gone[k],
            forall|k: int|
                0 <= k < reports.len() ==> (#[trigger] reports[k]).ship == gone[gone.len() - 1 - k],
            forall|i: int|
                0 <= i < reports.len() ==> is_batch(
                    (#[trigger] reports[i]).notices@,
                    sunk_text(reports[i].ship@),
                    opts.app_token@,
                    opts.user_tokens@,
                ),
        decreases evicted.len(),
    {
        let ship = evicted.pop().unwrap();
        let msg = sunk_message(&ship);
        let notices = dispatch(msg.as_str(), opts.app_token.as_str(), &opts.user_tokens);
        reports.push(SunkShip { ship, notices });
    }
    proof {
        let lost = sunk(old(registry)@, now as nat);
        let from = records(gone);
        let list = records(evicted_ships(reports@));
        assert forall|k: int| 0 <= k < list.len() implies #[trigger] list[k] == from[gone.len() - 1
            - k] by {
            assert(reports[k].ship == gone[gone.len() - 1 - k]);
        }
        assert forall|id: Seq<char>| lost.contains_key(id) implies #[trigger] mentions(
            list,
            id,
        ) by {
            assert(mentions(from, id));
            let k = choose|k: int| 0 <= k < from.len() && (#[trigger] from[k]).identity == id;
            assert(list[gone.len() - 1 - k].identity == id);
        }
    }
    reports
}

} // verus!
