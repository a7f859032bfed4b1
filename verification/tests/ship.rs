use beaconship::model::ShipAliveReq;
use beaconship::json::JsonPost;
use beaconship::ship::{
    announce, announcement, frame_heartbeat, heartbeat_post, interval_is_safe, resolve_hostname,
};

fn is_random_identity(text: &str) -> bool {
    let chars: Vec<char> = text.chars().collect();
    chars.len() == 36
        && chars.iter().enumerate().all(|(i, c)| match i {
            8 | 13 | 18 | 23 => *c == '-',
            _ => matches!(c, '0'..='9' | 'a'..='f'),
        })
        && chars[14] == '4'
        && matches!(chars[19], '8' | '9' | 'a' | 'b')
}

#[test]
fn configured_hostname_wins() {
    assert_eq!(
        resolve_hostname(Some("mine".to_string()), Some("system".to_string())),
        "mine"
    );
    assert_eq!(resolve_hostname(Some("mine".to_string()), None), "mine");
}

#[test]
fn system_hostname_is_the_fallback() {
    assert_eq!(resolve_hostname(None, Some("system".to_string())), "system");
}

#[test]
fn unknown_host_is_the_last_resort() {
    assert_eq!(resolve_hostname(None, None), "unknown host");
}

#[test]
fn announcement_holds_what_it_was_given() {
    assert_eq!(
        announcement("h1".to_string(), 60, "A".to_string()),
        ShipAliveReq { hostname: "h1".to_string(), max_offline: 60, uuid: "A".to_string() }
    );
}

#[test]
fn announce_uses_configured_hostname_and_fresh_identity() {
    let request = announce(Some("h1".to_string()), 60);
    assert_eq!(request.hostname, "h1");
    assert_eq!(request.max_offline, 60);
    assert!(is_random_identity(&request.uuid), "{}", request.uuid);
}

#[test]
fn announce_without_configured_hostname_still_names_the_ship() {
    let request = announce(None, 0);
    assert_eq!(request.max_offline, 0);
    assert!(is_random_identity(&request.uuid), "{}", request.uuid);
    let same_source = announce(None, 0);
    assert_eq!(request.hostname, same_source.hostname);
}

#[test]
fn two_ships_draw_different_identities() {
    assert_ne!(announce(None, 60).uuid, announce(None, 60).uuid);
}

#[test]
fn interval_is_safe_up_to_a_third_of_the_deadline() {
    assert!(interval_is_safe(10, 60));
    assert!(interval_is_safe(20, 60));
    assert!(!interval_is_safe(21, 60));
    assert!(interval_is_safe(0, 0));
    assert!(!interval_is_safe(1, 2));
    assert!(interval_is_safe(1, 3));
    assert!(!interval_is_safe(u64::MAX, u64::MAX));
    assert!(interval_is_safe(u64::MAX / 3, u64::MAX));
    assert!(!interval_is_safe(u64::MAX / 3 + 1, u64::MAX));
}

#[test]
fn heartbeat_frame_is_a_json_object_of_three_fields() {
    assert_eq!(
        frame_heartbeat("http://beacon/ship", "\"h1\"", 60, "\"A\""),
        JsonPost {
            uri: "http://beacon/ship".to_string(),
            body: "{\"hostname\":\"h1\",\"max_offline\":60,\"uuid\":\"A\"}".to_string(),
        }
    );
    assert_eq!(
        frame_heartbeat("", "", u64::MAX, "").body,
        "{\"hostname\":,\"max_offline\":18446744073709551615,\"uuid\":}"
    );
}

#[test]
fn heartbeat_is_posted_to_the_beacon_as_json() {
    let request = announcement("h1".to_string(), 30, "A".to_string());
    assert_eq!(
        heartbeat_post("http://beacon:8000/ship", &request),
        JsonPost {
            uri: "http://beacon:8000/ship".to_string(),
            body: "{\"hostname\":\"h1\",\"max_offline\":30,\"uuid\":\"A\"}".to_string(),
        }
    );
}

#[test]
fn heartbeat_body_reads_back_as_the_request() {
    let request = announcement("host \"quoted\"\n".to_string(), 0, "id\\1".to_string());
    let body = heartbeat_post("", &request).body;
    let value: serde_json::Value = serde_json::from_str(&body).unwrap();
    let object = value.as_object().unwrap();
    assert_eq!(object.len(), 3);
    assert_eq!(object["hostname"].as_str(), Some("host \"quoted\"\n"));
    assert_eq!(object["max_offline"].as_u64(), Some(0));
    assert_eq!(object["uuid"].as_str(), Some("id\\1"));
}
