//! The ship's side: how a ship names itself in its heartbeats.

use crate::json::{encode_string, json_string, JsonPost};
use crate::model::{Heartbeat, ShipAliveReq, ShipRecord};
use crate::text::{decimal, decimal_string};
use vstd::prelude::*;
use vstd::string::*;

verus! {

/// A digit of lower-case hexadecimal.
pub open spec fn is_lower_hex(c: char) -> bool {
    ('0' <= c && c <= '9') || ('a' <= c && c <= 'f')
}

/// The shape of a random identity: thirty-two lower-case hexadecimal digits
/// in groups of 8, 4, 4, 4 and 12 with a hyphen between two groups, the third
/// group starting with `4` and the fourth with `8`, `9`, `a` or `b`.
pub open spec fn is_random_identity(text: Seq<char>) -> bool {
    &&& text.len() == 36
    &&& forall|i: int|
        0 <= i < 36 ==> if i == 8 || i == 13 || i == 18 || i == 23 {
            #[trigger] text[i] == '-'
        } else {
            is_lower_hex(text[i])
        }
    &&& text[14] == '4'
    &&& (text[19] == '8' || text[19] == '9' || text[19] == 'a' || text[19] == 'b')
}

/// The name a ship reports: the one it was configured with, else the one the
/// system gave, else a fixed stand-in.
pub open spec fn chosen_hostname(configured: Option<String>, system: Option<String>) -> Seq<char> {
    match configured {
        Some(name) => name@,
        None => match system {
            Some(name) => name@,
            None => "unknown host"@,
        },
    }
}

/// The body of a heartbeat on the wire: a JSON object of the ship's name and
/// identity, each given as a JSON string literal, and its deadline in
/// seconds.
pub open spec fn heartbeat_json(
    hostname: Seq<char>,
    max_offline: nat,
    uuid: Seq<char>,
) -> Seq<char> {
    "{\"hostname\":"@ + hostname + ",\"max_offline\":"@ + decimal(max_offline) + ",\"uuid\":"@
        + uuid + "}"@
}

/// Draws a fresh identity: `uuid::Uuid::new_v4`, written out by the
/// `to_string` of `uuid::Uuid`. Which identity comes back is left open; the
/// contract claims only the shape in which a version 4 UUID is written. The
/// call does not return if the operating system cannot supply random bytes.
#[verifier::external_body]
fn random_identity() -> (identity: String)
    ensures
        is_random_identity(identity@),
{
    uuid::Uuid::new_v4().to_string()
}

/// Asks the operating system for the host name: `hostname::get`. The result
/// is `None` where the call fails or the name is not valid Unicode. Nothing
/// is claimed of the name itself.
#[verifier::external_body]
fn system_hostname() -> (name: Option<String>) {
    match hostname::get() {
        Ok(name) => name.into_string().ok(),
        Err(_) => None,
    }
}

/// Picks the name that a ship reports.
pub fn resolve_hostname(configured: Option<String>, system: Option<String>) -> (name: String)
    ensures
        name@ == chosen_hostname(configured, system),
{
    match configured {
        Some(name) => name,
        None => match system {
            Some(name) => name,
            None => "unknown host".to_owned(),
        },
    }
}

/// The heartbeat of a ship with the given name, deadline and identity.
pub fn announcement(hostname: String, max_offline: u64, uuid: String) -> (request: ShipAliveReq)
    ensures
        request@ == (Heartbeat {
            identity: uuid@,
            hostname: hostname@,
            max_offline: max_offline as nat,
        }),
{
    ShipAliveReq { hostname, max_offline, uuid }
}

/// The heartbeat that this ship will send for as long as it runs: it carries
/// a fresh random identity, and the configured name where there is one. The
/// system is asked for a name only where none is configured.
pub fn announce(configured: Option<String>, max_offline: u64) -> (request: ShipAliveReq)
    ensures
        request@.max_offline == max_offline,
        is_random_identity(request@.identity),
        configured matches Some(name) ==> request@.hostname == name@,
{
    let system = if configured.is_none() {
        system_hostname()
    } else {
        None
    };
    announcement(resolve_hostname(configured, system), max_offline, random_identity())
}

/// Frames the request for a heartbeat from the beacon's address, the ship's
/// deadline, and its name and identity, each already written as a JSON
/// string literal: a post to the beacon.
pub fn frame_heartbeat(
    server: &str,
    hostname: &str,
    max_offline: u64,
    uuid: &str,
) -> (request: JsonPost)
    ensures
        request.uri@ == server@,
        request.body@ == heartbeat_json(hostname@, max_offline as nat, uuid@),
{
    let mut body = "{\"hostname\":".to_owned();
    body.append(hostname);
    body.append(",\"max_offline\":");
    body.append(decimal_string(max_offline).as_str());
    body.append(",\"uuid\":");
    body.append(uuid);
    body.append("}");
    JsonPost { uri: server.to_owned(), body }
}

/// Prepares the request that reports `request` to the beacon at `server`.
pub fn heartbeat_post(server: &str, request: &ShipAliveReq) -> (post: JsonPost)
    ensures
        post.uri@ == server@,
        post.body@ == heartbeat_json(
            json_string(request@.hostname),
            request@.max_offline,
            json_string(request@.identity),
        ),
{
    let hostname = encode_string(request.hostname.as_str()).unwrap();
    let uuid = encode_string(request.uuid.as_str()).unwrap();
    frame_heartbeat(server, hostname.as_str(), request.max_offline, uuid.as_str())
}

/// Whether a ship that beats every `interval` seconds leaves itself the
/// advised margin: at least three heartbeats fit into the deadline.
pub fn interval_is_safe(interval: u64, max_offline: u64) -> (safe: bool)
    ensures
        safe == (3 * interval <= max_offline),
{
    interval <= max_offline / 3
}

/// What the advised margin buys: a ship that beats at a safe interval can
/// miss two heartbeats in a row and is still not found sunk.
pub proof fn safe_interval_bears_two_missed_beats(ship: ShipRecord, interval: nat, now: nat)
    requires
        0 < interval,
        3 * interval <= ship.max_offline,
        now <= ship.last_seen + 2 * interval,
    ensures
        !ship.expired(now),
{
}

} // verus!
