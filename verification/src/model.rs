//! The heartbeat a ship sends and the record the beacon keeps of it.

use vstd::prelude::*;

verus! {

/// What a heartbeat says, as mathematical values.
pub struct Heartbeat {
    pub identity: Seq<char>,
    pub hostname: Seq<char>,
    pub max_offline: nat,
}

/// What the beacon knows of one live ship, as mathematical values.
pub struct ShipRecord {
    pub identity: Seq<char>,
    pub hostname: Seq<char>,
    pub max_offline: nat,
    pub last_seen: nat,
}

impl ShipRecord {
    /// The record that the first heartbeat of an identity creates at `now`.
    pub open spec fn first(beat: Heartbeat, now: nat) -> ShipRecord {
        ShipRecord {
            identity: beat.identity,
            hostname: beat.hostname,
            max_offline: beat.max_offline,
            last_seen: now,
        }
    }

    /// The record after a further heartbeat at `now`: only `last_seen` moves,
    /// and only forward. A heartbeat taken at an earlier time than the ship
    /// was last seen at leaves the record as it is.
    pub open spec fn refreshed(self, now: nat) -> ShipRecord {
        ShipRecord { last_seen: if now > self.last_seen { now } else { self.last_seen }, ..self }
    }

    /// A ship is sunk once its deadline has passed.
    pub open spec fn expired(self, now: nat) -> bool {
        now >= self.last_seen + self.max_offline
    }
}

/// "Ship is alive" request.
#[derive(Debug, PartialEq, Eq)]
pub struct ShipAliveReq {
    pub hostname: String,
    pub max_offline: u64,
    pub uuid: String,
}

impl View for ShipAliveReq {
    type V = Heartbeat;

    open spec fn view(&self) -> Heartbeat {
        Heartbeat {
            identity: self.uuid@,
            hostname: self.hostname@,
            max_offline: self.max_offline as nat,
        }
    }
}

impl Clone for ShipAliveReq {
    fn clone(&self) -> (copy: Self)
        ensures
            copy@ == self@,
    {
        ShipAliveReq {
            hostname: self.hostname.clone(),
            max_offline: self.max_offline,
            uuid: self.uuid.clone(),
        }
    }
}

/// A registered ship: its announcement and the time of its latest heartbeat,
/// in seconds since the Unix epoch.
#[derive(Debug, PartialEq, Eq)]
pub struct ShipInfo {
    pub request: ShipAliveReq,
    pub last_seen: u64,
}

impl View for ShipInfo {
    type V = ShipRecord;

    open spec fn view(&self) -> ShipRecord {
        ShipRecord {
            identity: self.request.uuid@,
            hostname: self.request.hostname@,
            max_offline: self.request.max_offline as nat,
            last_seen: self.last_seen as nat,
        }
    }
}

impl Clone for ShipInfo {
    fn clone(&self) -> (copy: Self)
        ensures
            copy@ == self@,
    {
        ShipInfo { request: self.request.clone(), last_seen: self.last_seen }
    }
}

impl ShipInfo {
    /// Whether the ship's deadline has passed at `now`.
    pub fn is_sunk(&self, now: u64) -> (sunk: bool)
        ensures
            sunk == self@.expired(now as nat),
    {
        now >= self.last_seen && now - self.last_seen >= self.request.max_offline
    }
}

} // verus!
