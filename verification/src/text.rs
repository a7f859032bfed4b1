//! The wording of replies and notifications.

use crate::model::{Heartbeat, ShipAliveReq, ShipInfo, ShipRecord};
use vstd::prelude::*;
use vstd::string::*;

verus! {

/// The character of the digit `d`, for `d` below ten.
pub open spec fn digit(d: nat) -> char {
    "0123456789"@[d as int]
}

/// `n` in decimal, without leading zeros.
pub open spec fn decimal(n: nat) -> Seq<char>
    decreases n,
{
    if n < 10 {
        seq![digit(n)]
    } else {
        decimal(n / 10).push(digit(n % 10))
    }
}

/// The reply to a query or deletion of an identity that is not registered.
pub open spec fn not_found_text(identity: Seq<char>) -> Seq<char> {
    "Ship ("@ + identity + ") not found"@
}

/// One line that names the fields of a heartbeat.
pub open spec fn heartbeat_text(beat: Heartbeat) -> Seq<char> {
    "uuid: "@ + beat.identity + ", hostname: "@ + beat.hostname + ", max_offline: "@ + decimal(
        beat.max_offline,
    )
}

/// One line that names the fields of a record.
pub open spec fn record_text(ship: ShipRecord) -> Seq<char> {
    "uuid: "@ + ship.identity + ", hostname: "@ + ship.hostname + ", max_offline: "@ + decimal(
        ship.max_offline,
    ) + ", last_seen: "@ + decimal(ship.last_seen)
}

/// The notification that a ship has registered.
pub open spec fn registered_text(beat: Heartbeat) -> Seq<char> {
    "Ship "@ + beat.hostname + " has registered.\n"@ + heartbeat_text(beat)
}

/// The notification that a ship has sunk: its hostname, when it was last
/// seen, and the record as it was when it was evicted.
pub open spec fn sunk_text(ship: ShipRecord) -> Seq<char> {
    "Ship has sunk "@ + ship.hostname + " - last seen "@ + decimal(ship.last_seen) + ":\n\n"@
        + record_text(ship)
}

/// The notification that a ship has sunk holds the ship's hostname, right
/// after its opening words.
pub proof fn sunk_text_names_the_ship(ship: ShipRecord)
    ensures
        sunk_text(ship).len() >= 14 + ship.hostname.len(),
        sunk_text(ship).subrange(14, 14 + ship.hostname.len() as int) == ship.hostname,
{
    reveal_strlit("Ship has sunk ");
    let head = "Ship has sunk "@ + ship.hostname;
    let tail = " - last seen "@ + decimal(ship.last_seen) + ":\n\n"@ + record_text(ship);
    assert(sunk_text(ship) =~= head + tail);
    assert((head + tail).subrange(14, 14 + ship.hostname.len() as int) =~= ship.hostname);
}

/// Renders `n` in decimal.
pub fn decimal_string(n: u64) -> (text: String)
    ensures
        text@ == decimal(n as nat),
    decreases n,
{
    proof {
        reveal_strlit("0123456789");
    }
    let d: usize = (n % 10) as usize;
    let unit = "0123456789".substring_ascii(d, d + 1);
    assert(unit@ =~= seq![digit((n % 10) as nat)]);
    if n < 10 {
        unit.to_owned()
    } else {
        let mut text = decimal_string(n / 10);
        text.append(unit);
        text
    }
}

/// Words the reply for an identity that is not registered.
pub fn not_found_message(identity: &str) -> (text: String)
    ensures
        text@ == not_found_text(identity@),
{
    let mut text = "Ship (".to_owned();
    text.append(identity);
    text.append(") not found");
    text
}

fn heartbeat_line(request: &ShipAliveReq) -> (text: String)
    ensures
        text@ == heartbeat_text(request@),
{
    let mut text = "uuid: ".to_owned();
    text.append(request.uuid.as_str());
    text.append(", hostname: ");
    text.append(request.hostname.as_str());
    text.append(", max_offline: ");
    text.append(decimal_string(request.max_offline).as_str());
    text
}

/// Words the notification that `request` registered a new ship.
pub fn registered_message(request: &ShipAliveReq) -> (text: String)
    ensures
        text@ == registered_text(request@),
{
    let mut text = "Ship ".to_owned();
    text.append(request.hostname.as_str());
    text.append(" has registered.\n");
    text.append(heartbeat_line(request).as_str());
    text
}

/// Words the notification that `ship` has sunk.
pub fn sunk_message(ship: &ShipInfo) -> (text: String)
    ensures
        text@ == sunk_text(ship@),
{
    let seen = decimal_string(ship.last_seen);
    let mut line = heartbeat_line(&ship.request);
    line.append(", last_seen: ");
    line.append(seen.as_str());
    let mut text = "Ship has sunk ".to_owned();
    text.append(ship.request.hostname.as_str());
    text.append(" - last seen ");
    text.append(seen.as_str());
    text.append(":\n\n");
    text.append(line.as_str());
    text
}

} // verus!
